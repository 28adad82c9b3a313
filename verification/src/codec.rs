//! Mapping between the wire records and JSON documents: typed field
//! readers over parsed documents, and verified encoders that omit absent
//! optional fields rather than sending `null`.

use vstd::prelude::*;
use vstd::string::*;
use crate::models::{
    AdminCreateCustomerRequest, AdminCreateCustomerResponse, AdminCreateKeyRequest,
    AdminCreateKeyResponse, AdminCustomerListResponse, AdminCustomerResponse,
    AdminRevokeKeyRequest, AdminRevokeKeyResponse, AdminUpdateCustomerRequest,
    ApiKeyIntrospection, ArtifactPresignRequest, ArtifactPresignResponse,
    ArtifactRegisterRequest, ArtifactRegisterResponse, ArtifactSummary, AuditEventListResponse,
    AuditEventResponse, DownloadTokenRequest, DownloadTokenResponse, EntitlementCreateRequest,
    EntitlementListResponse, EntitlementResponse, EntitlementUpdateRequest, ErrorBody,
    ErrorDetail, HealthResponse, ReleaseCreateRequest, ReleaseListResponse, ReleaseResponse,
    ResetCredentialsRequest, UserCreateRequest, UserGroupsReplaceRequest, UserListResponse,
    UserPatchRequest, UserResponse,
};
use crate::json::{
    Json, JsonValue, jmodel, jmodel_list, jmodel_entries, wf_json, wf_list, wf_entries, lemma_jmodel_list_len,
    lemma_jmodel_list_index, lemma_jmodel_entries_len, lemma_jmodel_entries_index, jfield,
    jstr_field, jint_field, jbool_field, jopt_str_field, jopt_int_field, jopt_json_field,
    jstrs, jstrlist_field, get_field, clone_json,
};

verus! {

/// The texts of a list of strings.
pub open spec fn strs_view(s: Seq<String>) -> Seq<Seq<char>> {
    Seq::new(s.len(), |i: int| s[i]@)
}

/// The integer values of an optional 64-bit field.
pub open spec fn oi64(o: Option<i64>) -> Option<int> {
    match o {
        Some(n) => Some(n as int),
        None => None,
    }
}

/// The integer values of an optional 32-bit field.
pub open spec fn oi32(o: Option<i32>) -> Option<int> {
    match o {
        Some(n) => Some(n as int),
        None => None,
    }
}

/// Read a required string field.
pub fn req_str(v: &JsonValue, key: &str) -> (r: Option<String>)
    ensures
        match r {
            Some(s) => jstr_field(v@, key@) == Some(s@),
            None => jstr_field(v@, key@) is None,
        },
{
    match get_field(v, key) {
        Some(f) => match f {
            JsonValue::Str(s) => Some(s.clone()),
            _ => None,
        },
        None => None,
    }
}

/// Read a required integer field.
pub fn req_i64(v: &JsonValue, key: &str) -> (r: Option<i64>)
    ensures
        match r {
            Some(n) => jint_field(v@, key@) == Some(n as int),
            None => jint_field(v@, key@) is None,
        },
{
    match get_field(v, key) {
        Some(f) => match f {
            JsonValue::Int(n) => Some(*n),
            _ => None,
        },
        None => None,
    }
}

/// Read a required boolean field.
pub fn req_bool(v: &JsonValue, key: &str) -> (r: Option<bool>)
    ensures
        match r {
            Some(b) => jbool_field(v@, key@) == Some(b),
            None => jbool_field(v@, key@) is None,
        },
{
    match get_field(v, key) {
        Some(f) => match f {
            JsonValue::Bool(b) => Some(*b),
            _ => None,
        },
        None => None,
    }
}

/// Read an optional string field; absent and null both read as absent.
pub fn opt_str(v: &JsonValue, key: &str) -> (r: Option<Option<String>>)
    ensures
        match r {
            Some(o) => jopt_str_field(v@, key@) == Some(o.deep_view()),
            None => jopt_str_field(v@, key@) is None,
        },
{
    match get_field(v, key) {
        None => Some(None),
        Some(f) => match f {
            JsonValue::Null => Some(None),
            JsonValue::Str(s) => Some(Some(s.clone())),
            _ => None,
        },
    }
}

/// Read an optional integer field.
pub fn opt_i64(v: &JsonValue, key: &str) -> (r: Option<Option<i64>>)
    ensures
        match r {
            Some(o) => jopt_int_field(v@, key@) == Some(oi64(o)),
            None => jopt_int_field(v@, key@) is None,
        },
{
    match get_field(v, key) {
        None => Some(None),
        Some(f) => match f {
            JsonValue::Null => Some(None),
            JsonValue::Int(n) => Some(Some(*n)),
            _ => None,
        },
    }
}

/// Read an optional opaque JSON field; absent and null both read as
/// absent.
pub fn opt_json(v: &JsonValue, key: &str) -> (r: Option<JsonValue>)
    ensures
        match r {
            Some(j) => jopt_json_field(v@, key@) == Some(j@),
            None => jopt_json_field(v@, key@) is None,
        },
{
    match get_field(v, key) {
        None => None,
        Some(f) => match f {
            JsonValue::Null => None,
            _ => Some(clone_json(f)),
        },
    }
}

proof fn lemma_jstrs_prefix(items: Seq<Json>, texts: Seq<Seq<char>>, x: Seq<char>)
    requires
        jstrs(items) == Some(texts),
    ensures
        jstrs(items.push(Json::Str(x))) == Some(texts.push(x)),
    decreases items.len(),
{
    let whole = items.push(Json::Str(x));
    if items.len() == 0 {
        assert(whole[0] == Json::Str(x));
        assert(whole.subrange(1, whole.len() as int) =~= Seq::<Json>::empty());
        assert(jstrs(Seq::<Json>::empty()) == Some(Seq::<Seq<char>>::empty()));
        assert(jstrs(whole) == Some(seq![x] + Seq::<Seq<char>>::empty()));
        assert(seq![x] + Seq::<Seq<char>>::empty() =~= texts.push(x));
    } else {
        let tail = items.subrange(1, items.len() as int);
        assert(items[0] matches Json::Str(_));
        let head = items[0]->Str_0;
        assert(jstrs(items) == Some(seq![head] + jstrs(tail)->0));
        assert(texts[0] == head);
        assert(texts.subrange(1, texts.len() as int) =~= jstrs(tail)->0);
        assert(whole.subrange(1, whole.len() as int) =~= tail.push(Json::Str(x)));
        lemma_jstrs_prefix(tail, texts.subrange(1, texts.len() as int), x);
        assert(jstrs(whole) == Some(
            seq![texts[0]] + texts.subrange(1, texts.len() as int).push(x),
        ));
        assert(seq![texts[0]] + texts.subrange(1, texts.len() as int).push(x) =~= texts.push(x));
    }
}

proof fn lemma_jstrs_bad(items: Seq<Json>, i: int)
    requires
        0 <= i < items.len(),
        !(items[i] matches Json::Str(_)),
    ensures
        jstrs(items) is None,
    decreases items.len(),
{
    if items.len() > 0 {
        match items[0] {
            Json::Str(_) => {
                let tail = items.subrange(1, items.len() as int);
                lemma_jstrs_bad(tail, i - 1);
            },
            _ => {},
        }
    }
}

/// Read a list of strings from an array document.
pub fn read_strs(items: &Vec<JsonValue>) -> (r: Option<Vec<String>>)
    ensures
        match r {
            Some(ss) => jstrs(jmodel_list(items@)) == Some(strs_view(ss@)),
            None => jstrs(jmodel_list(items@)) is None,
        },
{
    let count = items.len();
    let mut out: Vec<String> = Vec::new();
    let mut i: usize = 0;
    while i < count
        invariant
            count == items@.len(),
            i <= count,
            out@.len() == i,
            jstrs(jmodel_list(items@).subrange(0, i as int)) == Some(strs_view(out@)),
        decreases count - i,
    {
        proof {
            broadcast use lemma_jmodel_list_len, lemma_jmodel_list_index;

        }
        match &items[i] {
            JsonValue::Str(s) => {
                let ghost before = out@;
                out.push(s.clone());
                proof {
                    broadcast use lemma_jmodel_list_len, lemma_jmodel_list_index;

                    let m = jmodel_list(items@);
                    assert(m.subrange(0, i + 1 as int) =~= m.subrange(0, i as int).push(m[i as int]));
                    lemma_jstrs_prefix(m.subrange(0, i as int), strs_view(before), s@);
                    assert(strs_view(out@) =~= strs_view(before).push(s@));
                }
            },
            _ => {
                proof {
                    broadcast use lemma_jmodel_list_len, lemma_jmodel_list_index;

                    lemma_jstrs_bad(jmodel_list(items@), i as int);
                }
                return None;
            },
        }
        i = i + 1;
    }
    proof {
        assert(jmodel_list(items@).subrange(0, count as int) =~= jmodel_list(items@)) by {
            broadcast use lemma_jmodel_list_len;

        }
    }
    Some(out)
}

/// Read a required string-list field.
pub fn req_strlist(v: &JsonValue, key: &str) -> (r: Option<Vec<String>>)
    ensures
        match r {
            Some(ss) => jstrlist_field(v@, key@) == Some(strs_view(ss@)),
            None => jstrlist_field(v@, key@) is None,
        },
{
    match get_field(v, key) {
        Some(f) => match f {
            JsonValue::Arr(items) => read_strs(items),
            _ => None,
        },
        None => None,
    }
}

/// The object entry an optional string field contributes: nothing when
/// absent, one member when present.
pub open spec fn opt_str_entry(k: Seq<char>, v: Option<Seq<char>>) -> Seq<(Seq<char>, Json)> {
    match v {
        Some(s) => seq![(k, Json::Str(s))],
        None => Seq::empty(),
    }
}

/// As [`opt_str_entry`], for an integer field.
pub open spec fn opt_int_entry(k: Seq<char>, v: Option<int>) -> Seq<(Seq<char>, Json)> {
    match v {
        Some(n) => seq![(k, Json::Int(n))],
        None => Seq::empty(),
    }
}

/// As [`opt_str_entry`], for a boolean field.
pub open spec fn opt_bool_entry(k: Seq<char>, v: Option<bool>) -> Seq<(Seq<char>, Json)> {
    match v {
        Some(b) => seq![(k, Json::Bool(b))],
        None => Seq::empty(),
    }
}

/// As [`opt_str_entry`], for an opaque JSON field.
pub open spec fn opt_json_entry(k: Seq<char>, v: Option<Json>) -> Seq<(Seq<char>, Json)> {
    match v {
        Some(g) => seq![(k, g)],
        None => Seq::empty(),
    }
}

/// The JSON array elements of a list of strings.
pub open spec fn strs_json(ss: Seq<Seq<char>>) -> Seq<Json> {
    Seq::new(ss.len(), |i: int| Json::Str(ss[i]))
}

/// As [`opt_str_entry`], for a string-list field.
pub open spec fn opt_strlist_entry(k: Seq<char>, v: Option<Seq<Seq<char>>>) -> Seq<
    (Seq<char>, Json),
> {
    match v {
        Some(ss) => seq![(k, Json::Arr(strs_json(ss)))],
        None => Seq::empty(),
    }
}

/// The document an optional opaque JSON value stands for.
pub open spec fn ojson(v: Option<JsonValue>) -> Option<Json> {
    match v {
        Some(j) => Some(jmodel(j)),
        None => None,
    }
}

fn push_str_entry(out: &mut Vec<(String, JsonValue)>, k: &str, s: &String)
    ensures
        jmodel_entries(final(out)@) == jmodel_entries(old(out)@) + seq![(k@, Json::Str(s@))],
{
    let ghost before = out@;
    out.push((k.to_owned(), JsonValue::Str(s.clone())));
    proof {
        broadcast use lemma_jmodel_entries_len, lemma_jmodel_entries_index;

        assert(jmodel_entries(out@) =~= jmodel_entries(before) + seq![(k@, Json::Str(s@))]);
    }
}

fn push_i64_entry(out: &mut Vec<(String, JsonValue)>, k: &str, n: i64)
    ensures
        jmodel_entries(final(out)@) == jmodel_entries(old(out)@) + seq![(k@, Json::Int(n as int))],
{
    let ghost before = out@;
    out.push((k.to_owned(), JsonValue::Int(n)));
    proof {
        broadcast use lemma_jmodel_entries_len, lemma_jmodel_entries_index;

        assert(jmodel_entries(out@) =~= jmodel_entries(before) + seq![(k@, Json::Int(n as int))]);
    }
}

fn push_opt_str_entry(out: &mut Vec<(String, JsonValue)>, k: &str, v: &Option<String>)
    ensures
        jmodel_entries(final(out)@) == jmodel_entries(old(out)@) + opt_str_entry(
            k@,
            v.deep_view(),
        ),
{
    match v {
        Some(s) => {
            push_str_entry(out, k, s);
        },
        None => {},
    }
    proof {
        assert(jmodel_entries(out@) =~= jmodel_entries(old(out)@) + opt_str_entry(
            k@,
            v.deep_view(),
        ));
    }
}

fn push_opt_i64_entry(out: &mut Vec<(String, JsonValue)>, k: &str, v: &Option<i64>)
    ensures
        jmodel_entries(final(out)@) == jmodel_entries(old(out)@) + opt_int_entry(k@, oi64(*v)),
{
    match v {
        Some(n) => {
            push_i64_entry(out, k, *n);
        },
        None => {},
    }
    proof {
        assert(jmodel_entries(out@) =~= jmodel_entries(old(out)@) + opt_int_entry(k@, oi64(*v)));
    }
}

fn push_opt_i32_entry(out: &mut Vec<(String, JsonValue)>, k: &str, v: &Option<i32>)
    ensures
        jmodel_entries(final(out)@) == jmodel_entries(old(out)@) + opt_int_entry(k@, oi32(*v)),
{
    match v {
        Some(n) => {
            push_i64_entry(out, k, *n as i64);
        },
        None => {},
    }
    proof {
        assert(jmodel_entries(out@) =~= jmodel_entries(old(out)@) + opt_int_entry(k@, oi32(*v)));
    }
}

fn push_opt_bool_entry(out: &mut Vec<(String, JsonValue)>, k: &str, v: &Option<bool>)
    ensures
        jmodel_entries(final(out)@) == jmodel_entries(old(out)@) + opt_bool_entry(k@, *v),
{
    let ghost before = out@;
    match v {
        Some(b) => {
            out.push((k.to_owned(), JsonValue::Bool(*b)));
            proof {
                broadcast use lemma_jmodel_entries_len, lemma_jmodel_entries_index;

                assert(jmodel_entries(out@) =~= jmodel_entries(before) + opt_bool_entry(k@, *v));
            }
        },
        None => {
            proof {
                assert(jmodel_entries(out@) =~= jmodel_entries(before) + opt_bool_entry(k@, *v));
            }
        },
    }
}

fn strs_to_json(ss: &Vec<String>) -> (r: Vec<JsonValue>)
    ensures
        jmodel_list(r@) == strs_json(strs_view(ss@)),
{
    let count = ss.len();
    let mut out: Vec<JsonValue> = Vec::new();
    let mut i: usize = 0;
    while i < count
        invariant
            count == ss@.len(),
            i <= count,
            out@.len() == i,
            forall|q: int| 0 <= q < i ==> out@[q] == JsonValue::Str(ss@[q]),
        decreases count - i,
    {
        out.push(JsonValue::Str(ss[i].clone()));
        proof {
            assert(out@[i as int] == JsonValue::Str(ss@[i as int]));
        }
        i = i + 1;
    }
    proof {
        broadcast use lemma_jmodel_list_len, lemma_jmodel_list_index;

        assert(jmodel_list(out@) =~= strs_json(strs_view(ss@)));
    }
    out
}

fn push_strlist_entry(out: &mut Vec<(String, JsonValue)>, k: &str, ss: &Vec<String>)
    ensures
        jmodel_entries(final(out)@) == jmodel_entries(old(out)@) + seq![
            (k@, Json::Arr(strs_json(strs_view(ss@)))),
        ],
{
    let ghost before = out@;
    let arr = strs_to_json(ss);
    out.push((k.to_owned(), JsonValue::Arr(arr)));
    proof {
        broadcast use lemma_jmodel_entries_len, lemma_jmodel_entries_index;

        assert(jmodel_entries(out@) =~= jmodel_entries(before) + seq![
            (k@, Json::Arr(strs_json(strs_view(ss@)))),
        ]);
    }
}

fn push_opt_strlist_entry(out: &mut Vec<(String, JsonValue)>, k: &str, v: &Option<Vec<String>>)
    ensures
        jmodel_entries(final(out)@) == jmodel_entries(old(out)@) + opt_strlist_entry(
            k@,
            match *v {
                Some(ss) => Some(strs_view(ss@)),
                None => None,
            },
        ),
{
    match v {
        Some(ss) => {
            push_strlist_entry(out, k, ss);
        },
        None => {},
    }
    proof {
        assert(jmodel_entries(out@) =~= jmodel_entries(old(out)@) + opt_strlist_entry(
            k@,
            match *v {
                Some(ss) => Some(strs_view(ss@)),
                None => None,
            },
        ));
    }
}

fn push_opt_json_entry(out: &mut Vec<(String, JsonValue)>, k: &str, v: &Option<JsonValue>)
    ensures
        jmodel_entries(final(out)@) == jmodel_entries(old(out)@) + opt_json_entry(
            k@,
            match *v {
                Some(j) => Some(jmodel(j)),
                None => None,
            },
        ),
{
    let ghost before = out@;
    match v {
        Some(j) => {
            out.push((k.to_owned(), clone_json(j)));
            proof {
                broadcast use lemma_jmodel_entries_len, lemma_jmodel_entries_index;

                assert(jmodel_entries(out@) =~= jmodel_entries(before) + opt_json_entry(
                    k@,
                    Some(jmodel(*j)),
                ));
            }
        },
        None => {
            proof {
                assert(jmodel_entries(out@) =~= jmodel_entries(before) + opt_json_entry(
                    k@,
                    None::<Json>,
                ));
            }
        },
    }
}

/// The wire document of [`AdminCreateCustomerRequest`].
pub open spec fn admin_create_customer_json(x: AdminCreateCustomerRequest) -> Json {
    Json::Obj(
        seq![("name"@, Json::Str(x.name@))] + opt_str_entry("plan"@, x.plan.deep_view()),
    )
}

impl AdminCreateCustomerRequest {
    /// Serialize for the wire; absent optional fields are omitted.
    pub fn to_json(&self) -> (r: JsonValue)
        ensures
            r@ == admin_create_customer_json(*self),
    {
        let mut out: Vec<(String, JsonValue)> = Vec::new();
        push_str_entry(&mut out, "name", &self.name);
        push_opt_str_entry(&mut out, "plan", &self.plan);
        proof {
            assert(jmodel_entries(out@) =~= seq![("name"@, Json::Str(self.name@))]
                + opt_str_entry("plan"@, self.plan.deep_view()));
        }
        JsonValue::Obj(out)
    }
}

/// The wire document of [`AdminUpdateCustomerRequest`].
pub open spec fn admin_update_customer_json(x: AdminUpdateCustomerRequest) -> Json {
    Json::Obj(
        opt_str_entry("name"@, x.name.deep_view()) + opt_str_entry("plan"@, x.plan.deep_view())
            + opt_bool_entry("suspended"@, x.suspended),
    )
}

impl AdminUpdateCustomerRequest {
    /// Serialize for the wire; absent optional fields are omitted.
    pub fn to_json(&self) -> (r: JsonValue)
        ensures
            r@ == admin_update_customer_json(*self),
    {
        let mut out: Vec<(String, JsonValue)> = Vec::new();
        push_opt_str_entry(&mut out, "name", &self.name);
        push_opt_str_entry(&mut out, "plan", &self.plan);
        push_opt_bool_entry(&mut out, "suspended", &self.suspended);
        proof {
            assert(jmodel_entries(out@) =~= opt_str_entry("name"@, self.name.deep_view())
                + opt_str_entry("plan"@, self.plan.deep_view()) + opt_bool_entry(
                "suspended"@,
                self.suspended,
            ));
        }
        JsonValue::Obj(out)
    }
}

/// The wire document of [`UserCreateRequest`].
pub open spec fn user_create_json(x: UserCreateRequest) -> Json {
    Json::Obj(
        seq![("email"@, Json::Str(x.email@)), ("customer_id"@, Json::Str(x.customer_id@))]
            + opt_str_entry("display_name"@, x.display_name.deep_view()) + opt_strlist_entry(
            "groups"@,
            match x.groups {
                Some(g) => Some(strs_view(g@)),
                None => None,
            },
        ) + opt_json_entry(
            "metadata"@,
            match x.metadata {
                Some(m) => Some(jmodel(m)),
                None => None,
            },
        ) + opt_str_entry("status"@, x.status.deep_view()),
    )
}

impl UserCreateRequest {
    /// Serialize for the wire; absent optional fields are omitted.
    pub fn to_json(&self) -> (r: JsonValue)
        ensures
            r@ == user_create_json(*self),
    {
        let mut out: Vec<(String, JsonValue)> = Vec::new();
        push_str_entry(&mut out, "email", &self.email);
        push_str_entry(&mut out, "customer_id", &self.customer_id);
        push_opt_str_entry(&mut out, "display_name", &self.display_name);
        push_opt_strlist_entry(&mut out, "groups", &self.groups);
        push_opt_json_entry(&mut out, "metadata", &self.metadata);
        push_opt_str_entry(&mut out, "status", &self.status);
        proof {
            assert(jmodel_entries(out@) =~= seq![
                ("email"@, Json::Str(self.email@)),
                ("customer_id"@, Json::Str(self.customer_id@)),
            ] + opt_str_entry("display_name"@, self.display_name.deep_view())
                + opt_strlist_entry(
                "groups"@,
                match self.groups {
                    Some(g) => Some(strs_view(g@)),
                    None => None,
                },
            ) + opt_json_entry(
                "metadata"@,
                match self.metadata {
                    Some(m) => Some(jmodel(m)),
                    None => None,
                },
            ) + opt_str_entry("status"@, self.status.deep_view()));
        }
        JsonValue::Obj(out)
    }
}

/// The wire document of [`UserPatchRequest`].
pub open spec fn user_patch_json(x: UserPatchRequest) -> Json {
    Json::Obj(
        opt_str_entry("display_name"@, x.display_name.deep_view()) + opt_strlist_entry(
            "groups"@,
            match x.groups {
                Some(g) => Some(strs_view(g@)),
                None => None,
            },
        ) + opt_json_entry(
            "metadata"@,
            match x.metadata {
                Some(m) => Some(jmodel(m)),
                None => None,
            },
        ) + opt_str_entry("status"@, x.status.deep_view()),
    )
}

impl UserPatchRequest {
    /// Serialize for the wire; absent optional fields are omitted.
    pub fn to_json(&self) -> (r: JsonValue)
        ensures
            r@ == user_patch_json(*self),
    {
        let mut out: Vec<(String, JsonValue)> = Vec::new();
        push_opt_str_entry(&mut out, "display_name", &self.display_name);
        push_opt_strlist_entry(&mut out, "groups", &self.groups);
        push_opt_json_entry(&mut out, "metadata", &self.metadata);
        push_opt_str_entry(&mut out, "status", &self.status);
        proof {
            assert(jmodel_entries(out@) =~= opt_str_entry(
                "display_name"@,
                self.display_name.deep_view(),
            ) + opt_strlist_entry(
                "groups"@,
                match self.groups {
                    Some(g) => Some(strs_view(g@)),
                    None => None,
                },
            ) + opt_json_entry(
                "metadata"@,
                match self.metadata {
                    Some(m) => Some(jmodel(m)),
                    None => None,
                },
            ) + opt_str_entry("status"@, self.status.deep_view()));
        }
        JsonValue::Obj(out)
    }
}

/// The wire document of [`UserGroupsReplaceRequest`].
pub open spec fn user_groups_replace_json(x: UserGroupsReplaceRequest) -> Json {
    Json::Obj(seq![("groups"@, Json::Arr(strs_json(strs_view(x.groups@))))])
}

impl UserGroupsReplaceRequest {
    /// Serialize for the wire.
    pub fn to_json(&self) -> (r: JsonValue)
        ensures
            r@ == user_groups_replace_json(*self),
    {
        let mut out: Vec<(String, JsonValue)> = Vec::new();
        push_strlist_entry(&mut out, "groups", &self.groups);
        proof {
            assert(jmodel_entries(out@) =~= seq![
                ("groups"@, Json::Arr(strs_json(strs_view(self.groups@)))),
            ]);
        }
        JsonValue::Obj(out)
    }
}

/// The wire document of [`ResetCredentialsRequest`].
pub open spec fn reset_credentials_json(x: ResetCredentialsRequest) -> Json {
    Json::Obj(opt_bool_entry("send_email"@, x.send_email))
}

impl ResetCredentialsRequest {
    /// Serialize for the wire; absent optional fields are omitted.
    pub fn to_json(&self) -> (r: JsonValue)
        ensures
            r@ == reset_credentials_json(*self),
    {
        let mut out: Vec<(String, JsonValue)> = Vec::new();
        push_opt_bool_entry(&mut out, "send_email", &self.send_email);
        proof {
            assert(jmodel_entries(out@) =~= opt_bool_entry("send_email"@, self.send_email));
        }
        JsonValue::Obj(out)
    }
}

/// The wire document of [`EntitlementCreateRequest`].
pub open spec fn entitlement_create_json(x: EntitlementCreateRequest) -> Json {
    Json::Obj(
        seq![("product"@, Json::Str(x.product@)), ("starts_at"@, Json::Int(x.starts_at as int))]
            + opt_int_entry("ends_at"@, oi64(x.ends_at)) + opt_json_entry(
            "metadata"@,
            match x.metadata {
                Some(m) => Some(jmodel(m)),
                None => None,
            },
        ),
    )
}

impl EntitlementCreateRequest {
    /// Serialize for the wire; absent optional fields are omitted.
    pub fn to_json(&self) -> (r: JsonValue)
        ensures
            r@ == entitlement_create_json(*self),
    {
        let mut out: Vec<(String, JsonValue)> = Vec::new();
        push_str_entry(&mut out, "product", &self.product);
        push_i64_entry(&mut out, "starts_at", self.starts_at);
        push_opt_i64_entry(&mut out, "ends_at", &self.ends_at);
        push_opt_json_entry(&mut out, "metadata", &self.metadata);
        proof {
            assert(jmodel_entries(out@) =~= seq![
                ("product"@, Json::Str(self.product@)),
                ("starts_at"@, Json::Int(self.starts_at as int)),
            ] + opt_int_entry("ends_at"@, oi64(self.ends_at)) + opt_json_entry(
                "metadata"@,
                match self.metadata {
                    Some(m) => Some(jmodel(m)),
                    None => None,
                },
            ));
        }
        JsonValue::Obj(out)
    }
}

/// The wire document of [`EntitlementUpdateRequest`].
pub open spec fn entitlement_update_json(x: EntitlementUpdateRequest) -> Json {
    Json::Obj(
        opt_str_entry("product"@, x.product.deep_view()) + opt_int_entry(
            "starts_at"@,
            oi64(x.starts_at),
        ) + opt_int_entry("ends_at"@, oi64(x.ends_at)) + opt_json_entry(
            "metadata"@,
            match x.metadata {
                Some(m) => Some(jmodel(m)),
                None => None,
            },
        ),
    )
}

impl EntitlementUpdateRequest {
    /// Serialize for the wire; absent optional fields are omitted.
    pub fn to_json(&self) -> (r: JsonValue)
        ensures
            r@ == entitlement_update_json(*self),
    {
        let mut out: Vec<(String, JsonValue)> = Vec::new();
        push_opt_str_entry(&mut out, "product", &self.product);
        push_opt_i64_entry(&mut out, "starts_at", &self.starts_at);
        push_opt_i64_entry(&mut out, "ends_at", &self.ends_at);
        push_opt_json_entry(&mut out, "metadata", &self.metadata);
        proof {
            assert(jmodel_entries(out@) =~= opt_str_entry("product"@, self.product.deep_view())
                + opt_int_entry("starts_at"@, oi64(self.starts_at)) + opt_int_entry(
                "ends_at"@,
                oi64(self.ends_at),
            ) + opt_json_entry(
                "metadata"@,
                match self.metadata {
                    Some(m) => Some(jmodel(m)),
                    None => None,
                },
            ));
        }
        JsonValue::Obj(out)
    }
}

/// The wire document of [`AdminCreateKeyRequest`].
pub open spec fn admin_create_key_json(x: AdminCreateKeyRequest) -> Json {
    Json::Obj(
        seq![("customer_id"@, Json::Str(x.customer_id@))] + opt_int_entry(
            "expires_at"@,
            oi64(x.expires_at),
        ) + opt_str_entry("key_type"@, x.key_type.deep_view()) + opt_str_entry(
            "name"@,
            x.name.deep_view(),
        ) + opt_strlist_entry(
            "scopes"@,
            match x.scopes {
                Some(g) => Some(strs_view(g@)),
                None => None,
            },
        ),
    )
}

impl AdminCreateKeyRequest {
    /// Serialize for the wire; absent optional fields are omitted.
    pub fn to_json(&self) -> (r: JsonValue)
        ensures
            r@ == admin_create_key_json(*self),
    {
        let mut out: Vec<(String, JsonValue)> = Vec::new();
        push_str_entry(&mut out, "customer_id", &self.customer_id);
        push_opt_i64_entry(&mut out, "expires_at", &self.expires_at);
        push_opt_str_entry(&mut out, "key_type", &self.key_type);
        push_opt_str_entry(&mut out, "name", &self.name);
        push_opt_strlist_entry(&mut out, "scopes", &self.scopes);
        proof {
            assert(jmodel_entries(out@) =~= seq![("customer_id"@, Json::Str(self.customer_id@))]
                + opt_int_entry("expires_at"@, oi64(self.expires_at)) + opt_str_entry(
                "key_type"@,
                self.key_type.deep_view(),
            ) + opt_str_entry("name"@, self.name.deep_view()) + opt_strlist_entry(
                "scopes"@,
                match self.scopes {
                    Some(g) => Some(strs_view(g@)),
                    None => None,
                },
            ));
        }
        JsonValue::Obj(out)
    }
}

/// The wire document of [`AdminRevokeKeyRequest`].
pub open spec fn admin_revoke_key_json(x: AdminRevokeKeyRequest) -> Json {
    Json::Obj(seq![("api_key_id"@, Json::Str(x.api_key_id@))])
}

impl AdminRevokeKeyRequest {
    /// Serialize for the wire.
    pub fn to_json(&self) -> (r: JsonValue)
        ensures
            r@ == admin_revoke_key_json(*self),
    {
        let mut out: Vec<(String, JsonValue)> = Vec::new();
        push_str_entry(&mut out, "api_key_id", &self.api_key_id);
        proof {
            assert(jmodel_entries(out@) =~= seq![("api_key_id"@, Json::Str(self.api_key_id@))]);
        }
        JsonValue::Obj(out)
    }
}

/// The wire document of [`DownloadTokenRequest`].
pub open spec fn download_token_json(x: DownloadTokenRequest) -> Json {
    Json::Obj(
        seq![("artifact_id"@, Json::Str(x.artifact_id@))] + opt_int_entry(
            "expires_in_seconds"@,
            oi32(x.expires_in_seconds),
        ) + opt_str_entry("purpose"@, x.purpose.deep_view()),
    )
}

impl DownloadTokenRequest {
    /// Serialize for the wire; absent optional fields are omitted.
    pub fn to_json(&self) -> (r: JsonValue)
        ensures
            r@ == download_token_json(*self),
    {
        let mut out: Vec<(String, JsonValue)> = Vec::new();
        push_str_entry(&mut out, "artifact_id", &self.artifact_id);
        push_opt_i32_entry(&mut out, "expires_in_seconds", &self.expires_in_seconds);
        push_opt_str_entry(&mut out, "purpose", &self.purpose);
        proof {
            assert(jmodel_entries(out@) =~= seq![("artifact_id"@, Json::Str(self.artifact_id@))]
                + opt_int_entry("expires_in_seconds"@, oi32(self.expires_in_seconds))
                + opt_str_entry("purpose"@, self.purpose.deep_view()));
        }
        JsonValue::Obj(out)
    }
}

/// The wire document of [`ReleaseCreateRequest`].
pub open spec fn release_create_json(x: ReleaseCreateRequest) -> Json {
    Json::Obj(
        seq![("product"@, Json::Str(x.product@)), ("version"@, Json::Str(x.version@))],
    )
}

impl ReleaseCreateRequest {
    /// Serialize for the wire.
    pub fn to_json(&self) -> (r: JsonValue)
        ensures
            r@ == release_create_json(*self),
    {
        let mut out: Vec<(String, JsonValue)> = Vec::new();
        push_str_entry(&mut out, "product", &self.product);
        push_str_entry(&mut out, "version", &self.version);
        proof {
            assert(jmodel_entries(out@) =~= seq![
                ("product"@, Json::Str(self.product@)),
                ("version"@, Json::Str(self.version@)),
            ]);
        }
        JsonValue::Obj(out)
    }
}

/// The wire document of [`ArtifactRegisterRequest`].
pub open spec fn artifact_register_json(x: ArtifactRegisterRequest) -> Json {
    Json::Obj(
        seq![
            ("artifact_id"@, Json::Str(x.artifact_id@)),
            ("object_key"@, Json::Str(x.object_key@)),
            ("checksum"@, Json::Str(x.checksum@)),
            ("size"@, Json::Int(x.size as int)),
            ("platform"@, Json::Str(x.platform@)),
        ],
    )
}

impl ArtifactRegisterRequest {
    /// Serialize for the wire.
    pub fn to_json(&self) -> (r: JsonValue)
        ensures
            r@ == artifact_register_json(*self),
    {
        let mut out: Vec<(String, JsonValue)> = Vec::new();
        push_str_entry(&mut out, "artifact_id", &self.artifact_id);
        push_str_entry(&mut out, "object_key", &self.object_key);
        push_str_entry(&mut out, "checksum", &self.checksum);
        push_i64_entry(&mut out, "size", self.size);
        push_str_entry(&mut out, "platform", &self.platform);
        proof {
            assert(jmodel_entries(out@) =~= seq![
                ("artifact_id"@, Json::Str(self.artifact_id@)),
                ("object_key"@, Json::Str(self.object_key@)),
                ("checksum"@, Json::Str(self.checksum@)),
                ("size"@, Json::Int(self.size as int)),
                ("platform"@, Json::Str(self.platform@)),
            ]);
        }
        JsonValue::Obj(out)
    }
}

/// The wire document of [`ArtifactPresignRequest`].
pub open spec fn artifact_presign_json(x: ArtifactPresignRequest) -> Json {
    Json::Obj(
        seq![("filename"@, Json::Str(x.filename@)), ("platform"@, Json::Str(x.platform@))],
    )
}

impl ArtifactPresignRequest {
    /// Serialize for the wire.
    pub fn to_json(&self) -> (r: JsonValue)
        ensures
            r@ == artifact_presign_json(*self),
    {
        let mut out: Vec<(String, JsonValue)> = Vec::new();
        push_str_entry(&mut out, "filename", &self.filename);
        push_str_entry(&mut out, "platform", &self.platform);
        proof {
            assert(jmodel_entries(out@) =~= seq![
                ("filename"@, Json::Str(self.filename@)),
                ("platform"@, Json::Str(self.platform@)),
            ]);
        }
        JsonValue::Obj(out)
    }
}

proof fn lemma_wf_entries_from_forall(s: Seq<(Seq<char>, Json)>)
    requires
        forall|i: int| 0 <= i < s.len() ==> wf_json(#[trigger] s[i].1),
    ensures
        wf_entries(s),
    decreases s,
{
    if s.len() > 0 {
        let tail = s.subrange(1, s.len() as int);
        assert forall|i: int| 0 <= i < tail.len() implies wf_json(#[trigger] tail[i].1) by {
            assert(tail[i] == s[i + 1]);
        }
        lemma_wf_entries_from_forall(tail);
    }
}

proof fn lemma_wf_list_from_forall(s: Seq<Json>)
    requires
        forall|i: int| 0 <= i < s.len() ==> wf_json(#[trigger] s[i]),
    ensures
        wf_list(s),
    decreases s,
{
    if s.len() > 0 {
        let tail = s.subrange(1, s.len() as int);
        assert forall|i: int| 0 <= i < tail.len() implies wf_json(#[trigger] tail[i]) by {
            assert(tail[i] == s[i + 1]);
        }
        lemma_wf_list_from_forall(tail);
    }
}


/// Round trip through the wire for [`AdminCreateCustomerRequest`]: its serialized text parses
/// back to exactly its document, so a server echo carries every
/// populated field unchanged and keeps omitted fields absent.
pub proof fn lemma_admin_create_customer_echo_round_trip(x: AdminCreateCustomerRequest)
    ensures
        crate::json::sp_document(crate::json::ser(admin_create_customer_json(x))) == Some(admin_create_customer_json(x)),
{
    let g = admin_create_customer_json(x);
    let entries = g->Obj_0;
    assert forall|i: int| 0 <= i < entries.len() implies wf_json(#[trigger] entries[i].1) by {
    }
    lemma_wf_entries_from_forall(entries);
    crate::json::lemma_document_round_trip(g);
}

/// Round trip through the wire for [`AdminUpdateCustomerRequest`]: its serialized text parses
/// back to exactly its document, so a server echo carries every
/// populated field unchanged and keeps omitted fields absent.
pub proof fn lemma_admin_update_customer_echo_round_trip(x: AdminUpdateCustomerRequest)
    ensures
        crate::json::sp_document(crate::json::ser(admin_update_customer_json(x))) == Some(admin_update_customer_json(x)),
{
    let g = admin_update_customer_json(x);
    let entries = g->Obj_0;
    assert forall|i: int| 0 <= i < entries.len() implies wf_json(#[trigger] entries[i].1) by {
    }
    lemma_wf_entries_from_forall(entries);
    crate::json::lemma_document_round_trip(g);
}

/// Round trip through the wire for [`UserCreateRequest`]: its serialized text parses
/// back to exactly its document, so a server echo carries every
/// populated field unchanged and keeps omitted fields absent.
pub proof fn lemma_user_create_echo_round_trip(x: UserCreateRequest)
    ensures
        crate::json::sp_document(crate::json::ser(user_create_json(x))) == Some(user_create_json(x)),
{
    let g = user_create_json(x);
    let entries = g->Obj_0;
    match x.groups {
        Some(ss) => {
            let items = strs_json(strs_view(ss@));
            assert forall|k: int| 0 <= k < items.len() implies wf_json(#[trigger] items[k]) by {
                assert(items[k] == Json::Str(strs_view(ss@)[k]));
            }
            lemma_wf_list_from_forall(items);
            assert(wf_json(Json::Arr(items)));
        },
        None => {},
    }
    match x.metadata {
        Some(m) => {
            crate::json::lemma_jmodel_wf(m);
        },
        None => {},
    }
    assert forall|i: int| 0 <= i < entries.len() implies wf_json(#[trigger] entries[i].1) by {
    }
    lemma_wf_entries_from_forall(entries);
    crate::json::lemma_document_round_trip(g);
}

/// Round trip through the wire for [`UserPatchRequest`]: its serialized text parses
/// back to exactly its document, so a server echo carries every
/// populated field unchanged and keeps omitted fields absent.
pub proof fn lemma_user_patch_echo_round_trip(x: UserPatchRequest)
    ensures
        crate::json::sp_document(crate::json::ser(user_patch_json(x))) == Some(user_patch_json(x)),
{
    let g = user_patch_json(x);
    let entries = g->Obj_0;
    match x.groups {
        Some(ss) => {
            let items = strs_json(strs_view(ss@));
            assert forall|k: int| 0 <= k < items.len() implies wf_json(#[trigger] items[k]) by {
                assert(items[k] == Json::Str(strs_view(ss@)[k]));
            }
            lemma_wf_list_from_forall(items);
            assert(wf_json(Json::Arr(items)));
        },
        None => {},
    }
    match x.metadata {
        Some(m) => {
            crate::json::lemma_jmodel_wf(m);
        },
        None => {},
    }
    assert forall|i: int| 0 <= i < entries.len() implies wf_json(#[trigger] entries[i].1) by {
    }
    lemma_wf_entries_from_forall(entries);
    crate::json::lemma_document_round_trip(g);
}

/// Round trip through the wire for [`UserGroupsReplaceRequest`]: its serialized text parses
/// back to exactly its document, so a server echo carries every
/// populated field unchanged and keeps omitted fields absent.
pub proof fn lemma_user_groups_replace_echo_round_trip(x: UserGroupsReplaceRequest)
    ensures
        crate::json::sp_document(crate::json::ser(user_groups_replace_json(x))) == Some(user_groups_replace_json(x)),
{
    let g = user_groups_replace_json(x);
    let entries = g->Obj_0;
    let items = strs_json(strs_view(x.groups@));
    assert forall|k: int| 0 <= k < items.len() implies wf_json(#[trigger] items[k]) by {
        assert(items[k] == Json::Str(strs_view(x.groups@)[k]));
    }
    lemma_wf_list_from_forall(items);
    assert(wf_json(Json::Arr(items)));
    assert forall|i: int| 0 <= i < entries.len() implies wf_json(#[trigger] entries[i].1) by {
    }
    lemma_wf_entries_from_forall(entries);
    crate::json::lemma_document_round_trip(g);
}

/// Round trip through the wire for [`ResetCredentialsRequest`]: its serialized text parses
/// back to exactly its document, so a server echo carries every
/// populated field unchanged and keeps omitted fields absent.
pub proof fn lemma_reset_credentials_echo_round_trip(x: ResetCredentialsRequest)
    ensures
        crate::json::sp_document(crate::json::ser(reset_credentials_json(x))) == Some(reset_credentials_json(x)),
{
    let g = reset_credentials_json(x);
    let entries = g->Obj_0;
    assert forall|i: int| 0 <= i < entries.len() implies wf_json(#[trigger] entries[i].1) by {
    }
    lemma_wf_entries_from_forall(entries);
    crate::json::lemma_document_round_trip(g);
}

/// Round trip through the wire for [`EntitlementCreateRequest`]: its serialized text parses
/// back to exactly its document, so a server echo carries every
/// populated field unchanged and keeps omitted fields absent.
pub proof fn lemma_entitlement_create_echo_round_trip(x: EntitlementCreateRequest)
    ensures
        crate::json::sp_document(crate::json::ser(entitlement_create_json(x))) == Some(entitlement_create_json(x)),
{
    let g = entitlement_create_json(x);
    let entries = g->Obj_0;
    match x.metadata {
        Some(m) => {
            crate::json::lemma_jmodel_wf(m);
        },
        None => {},
    }
    assert forall|i: int| 0 <= i < entries.len() implies wf_json(#[trigger] entries[i].1) by {
    }
    lemma_wf_entries_from_forall(entries);
    crate::json::lemma_document_round_trip(g);
}

/// Round trip through the wire for [`EntitlementUpdateRequest`]: its serialized text parses
/// back to exactly its document, so a server echo carries every
/// populated field unchanged and keeps omitted fields absent.
pub proof fn lemma_entitlement_update_echo_round_trip(x: EntitlementUpdateRequest)
    ensures
        crate::json::sp_document(crate::json::ser(entitlement_update_json(x))) == Some(entitlement_update_json(x)),
{
    let g = entitlement_update_json(x);
    let entries = g->Obj_0;
    match x.metadata {
        Some(m) => {
            crate::json::lemma_jmodel_wf(m);
        },
        None => {},
    }
    assert forall|i: int| 0 <= i < entries.len() implies wf_json(#[trigger] entries[i].1) by {
    }
    lemma_wf_entries_from_forall(entries);
    crate::json::lemma_document_round_trip(g);
}

/// Round trip through the wire for [`AdminCreateKeyRequest`]: its serialized text parses
/// back to exactly its document, so a server echo carries every
/// populated field unchanged and keeps omitted fields absent.
pub proof fn lemma_admin_create_key_echo_round_trip(x: AdminCreateKeyRequest)
    ensures
        crate::json::sp_document(crate::json::ser(admin_create_key_json(x))) == Some(admin_create_key_json(x)),
{
    let g = admin_create_key_json(x);
    let entries = g->Obj_0;
    match x.scopes {
        Some(ss) => {
            let items = strs_json(strs_view(ss@));
            assert forall|k: int| 0 <= k < items.len() implies wf_json(#[trigger] items[k]) by {
                assert(items[k] == Json::Str(strs_view(ss@)[k]));
            }
            lemma_wf_list_from_forall(items);
            assert(wf_json(Json::Arr(items)));
        },
        None => {},
    }
    assert forall|i: int| 0 <= i < entries.len() implies wf_json(#[trigger] entries[i].1) by {
    }
    lemma_wf_entries_from_forall(entries);
    crate::json::lemma_document_round_trip(g);
}

/// Round trip through the wire for [`AdminRevokeKeyRequest`]: its serialized text parses
/// back to exactly its document, so a server echo carries every
/// populated field unchanged and keeps omitted fields absent.
pub proof fn lemma_admin_revoke_key_echo_round_trip(x: AdminRevokeKeyRequest)
    ensures
        crate::json::sp_document(crate::json::ser(admin_revoke_key_json(x))) == Some(admin_revoke_key_json(x)),
{
    let g = admin_revoke_key_json(x);
    let entries = g->Obj_0;
    assert forall|i: int| 0 <= i < entries.len() implies wf_json(#[trigger] entries[i].1) by {
    }
    lemma_wf_entries_from_forall(entries);
    crate::json::lemma_document_round_trip(g);
}

/// Round trip through the wire for [`DownloadTokenRequest`]: its serialized text parses
/// back to exactly its document, so a server echo carries every
/// populated field unchanged and keeps omitted fields absent.
pub proof fn lemma_download_token_echo_round_trip(x: DownloadTokenRequest)
    ensures
        crate::json::sp_document(crate::json::ser(download_token_json(x))) == Some(download_token_json(x)),
{
    let g = download_token_json(x);
    let entries = g->Obj_0;
    assert forall|i: int| 0 <= i < entries.len() implies wf_json(#[trigger] entries[i].1) by {
    }
    lemma_wf_entries_from_forall(entries);
    crate::json::lemma_document_round_trip(g);
}

/// Round trip through the wire for [`ReleaseCreateRequest`]: its serialized text parses
/// back to exactly its document, so a server echo carries every
/// populated field unchanged and keeps omitted fields absent.
pub proof fn lemma_release_create_echo_round_trip(x: ReleaseCreateRequest)
    ensures
        crate::json::sp_document(crate::json::ser(release_create_json(x))) == Some(release_create_json(x)),
{
    let g = release_create_json(x);
    let entries = g->Obj_0;
    assert forall|i: int| 0 <= i < entries.len() implies wf_json(#[trigger] entries[i].1) by {
    }
    lemma_wf_entries_from_forall(entries);
    crate::json::lemma_document_round_trip(g);
}

/// Round trip through the wire for [`ArtifactRegisterRequest`]: its serialized text parses
/// back to exactly its document, so a server echo carries every
/// populated field unchanged and keeps omitted fields absent.
pub proof fn lemma_artifact_register_echo_round_trip(x: ArtifactRegisterRequest)
    ensures
        crate::json::sp_document(crate::json::ser(artifact_register_json(x))) == Some(artifact_register_json(x)),
{
    let g = artifact_register_json(x);
    let entries = g->Obj_0;
    assert forall|i: int| 0 <= i < entries.len() implies wf_json(#[trigger] entries[i].1) by {
    }
    lemma_wf_entries_from_forall(entries);
    crate::json::lemma_document_round_trip(g);
}

/// Round trip through the wire for [`ArtifactPresignRequest`]: its serialized text parses
/// back to exactly its document, so a server echo carries every
/// populated field unchanged and keeps omitted fields absent.
pub proof fn lemma_artifact_presign_echo_round_trip(x: ArtifactPresignRequest)
    ensures
        crate::json::sp_document(crate::json::ser(artifact_presign_json(x))) == Some(artifact_presign_json(x)),
{
    let g = artifact_presign_json(x);
    let entries = g->Obj_0;
    assert forall|i: int| 0 <= i < entries.len() implies wf_json(#[trigger] entries[i].1) by {
    }
    lemma_wf_entries_from_forall(entries);
    crate::json::lemma_document_round_trip(g);
}

/// The field equations a decoded [`HealthResponse`] satisfies.
pub open spec fn health_matches(g: Json, x: HealthResponse) -> bool {
    jstr_field(g, "status"@) == Some(x.status@)
}

impl HealthResponse {
    /// Decode from a parsed document; `None` exactly when no record fits.
    pub fn of_json(v: &JsonValue) -> (r: Option<Self>)
        ensures
            match r {
                Some(x) => health_matches(v@, x),
                None => forall|x: HealthResponse| !health_matches(v@, x),
            },
    {
        let status = match req_str(v, "status") {
            Some(s) => s,
            None => {
                return None;
            },
        };
        Some(HealthResponse { status })
    }
}

/// The wire document a [`HealthResponse`] value serializes to.
pub open spec fn health_json(x: HealthResponse) -> Json {
    Json::Obj(seq![("status"@, Json::Str(x.status@))])
}

/// Echo decoding for the health record: its document survives the wire
/// (serialize, then parse), and any record decoded from that document
/// carries the same field. With [`HealthResponse::of_json`]'s contract
/// this closes the serialize-echo-deserialize loop for this record.
pub proof fn lemma_health_echo_decode(x: HealthResponse, w: HealthResponse)
    requires
        health_matches(health_json(x), w),
    ensures
        crate::json::sp_document(crate::json::ser(health_json(x))) == Some(health_json(x)),
        w.status@ == x.status@,
{
    let g = health_json(x);
    let entries = g->Obj_0;
    assert forall|i: int| 0 <= i < entries.len() implies wf_json(#[trigger] entries[i].1) by {}
    lemma_wf_entries_from_forall(entries);
    crate::json::lemma_document_round_trip(g);
    assert(jfield(g, "status"@) == Some(Json::Str(x.status@)));
}

/// The field equations a decoded [`AdminCreateCustomerResponse`] satisfies.
pub open spec fn admin_create_customer_resp_matches(g: Json, x: AdminCreateCustomerResponse) -> bool {
    &&& jstr_field(g, "id"@) == Some(x.id@)
    &&& jstr_field(g, "name"@) == Some(x.name@)
    &&& jint_field(g, "created_at"@) == Some(x.created_at as int)
    &&& jopt_str_field(g, "plan"@) == Some(x.plan.deep_view())
}

impl AdminCreateCustomerResponse {
    /// Decode from a parsed document; `None` exactly when no record fits.
    pub fn of_json(v: &JsonValue) -> (r: Option<Self>)
        ensures
            match r {
                Some(x) => admin_create_customer_resp_matches(v@, x),
                None => forall|x: AdminCreateCustomerResponse|
                    !admin_create_customer_resp_matches(v@, x),
            },
    {
        let id = match req_str(v, "id") {
            Some(s) => s,
            None => {
                return None;
            },
        };
        let name = match req_str(v, "name") {
            Some(s) => s,
            None => {
                return None;
            },
        };
        let created_at = match req_i64(v, "created_at") {
            Some(n) => n,
            None => {
                return None;
            },
        };
        let plan = match opt_str(v, "plan") {
            Some(o) => o,
            None => {
                return None;
            },
        };
        Some(AdminCreateCustomerResponse { id, name, created_at, plan })
    }
}

/// The field equations a decoded [`AdminCustomerResponse`] satisfies.
pub open spec fn admin_customer_matches(g: Json, x: AdminCustomerResponse) -> bool {
    &&& jstr_field(g, "id"@) == Some(x.id@)
    &&& jstr_field(g, "name"@) == Some(x.name@)
    &&& jint_field(g, "created_at"@) == Some(x.created_at as int)
    &&& jopt_str_field(g, "plan"@) == Some(x.plan.deep_view())
    &&& jopt_int_field(g, "suspended_at"@) == Some(oi64(x.suspended_at))
}

impl AdminCustomerResponse {
    /// Decode from a parsed document; `None` exactly when no record fits.
    pub fn of_json(v: &JsonValue) -> (r: Option<Self>)
        ensures
            match r {
                Some(x) => admin_customer_matches(v@, x),
                None => forall|x: AdminCustomerResponse| !admin_customer_matches(v@, x),
            },
    {
        let id = match req_str(v, "id") {
            Some(s) => s,
            None => {
                return None;
            },
        };
        let name = match req_str(v, "name") {
            Some(s) => s,
            None => {
                return None;
            },
        };
        let created_at = match req_i64(v, "created_at") {
            Some(n) => n,
            None => {
                return None;
            },
        };
        let plan = match opt_str(v, "plan") {
            Some(o) => o,
            None => {
                return None;
            },
        };
        let suspended_at = match opt_i64(v, "suspended_at") {
            Some(o) => o,
            None => {
                return None;
            },
        };
        Some(AdminCustomerResponse { id, name, created_at, plan, suspended_at })
    }
}

/// The wire document an [`AdminCreateCustomerResponse`] value
/// serializes to: the fixed fields, then the plan only when present.
pub open spec fn admin_create_customer_resp_json(x: AdminCreateCustomerResponse) -> Json {
    Json::Obj(
        seq![
            ("id"@, Json::Str(x.id@)),
            ("name"@, Json::Str(x.name@)),
            ("created_at"@, Json::Int(x.created_at as int)),
        ] + opt_str_entry("plan"@, x.plan.deep_view()),
    )
}

/// Echo decoding for the customer-creation response: its document
/// survives the wire, and any record decoded from that document carries
/// the same fields — the optional plan included, absent when absent.
/// With [`AdminCreateCustomerResponse::of_json`]'s contract this closes
/// the serialize-echo-deserialize loop for this record.
pub proof fn lemma_admin_create_customer_echo_decode(
    x: AdminCreateCustomerResponse,
    w: AdminCreateCustomerResponse,
)
    requires
        admin_create_customer_resp_matches(admin_create_customer_resp_json(x), w),
    ensures
        crate::json::sp_document(crate::json::ser(admin_create_customer_resp_json(x))) == Some(
            admin_create_customer_resp_json(x),
        ),
        w.id@ == x.id@,
        w.name@ == x.name@,
        w.created_at == x.created_at,
        w.plan.deep_view() == x.plan.deep_view(),
{
    broadcast use vstd::string::group_string_axioms;

    reveal_strlit("id");
    reveal_strlit("name");
    reveal_strlit("created_at");
    reveal_strlit("plan");
    assert("id"@.len() == 2);
    assert("name"@.len() == 4);
    assert("created_at"@.len() == 10);
    assert("plan"@.len() == 4);
    assert("name"@[0] == 'n' && "plan"@[0] == 'p');
    let g = admin_create_customer_resp_json(x);
    let entries = g->Obj_0;
    assert forall|i: int| 0 <= i < entries.len() implies wf_json(#[trigger] entries[i].1) by {}
    lemma_wf_entries_from_forall(entries);
    crate::json::lemma_document_round_trip(g);
    crate::json::lemma_lookup_found(entries, "id"@, 0);
    crate::json::lemma_lookup_found(entries, "name"@, 1);
    crate::json::lemma_lookup_found(entries, "created_at"@, 2);
    match x.plan {
        Some(_) => {
            crate::json::lemma_lookup_found(entries, "plan"@, 3);
        },
        None => {
            crate::json::lemma_lookup_absent(entries, "plan"@);
        },
    }
}


/// The wire document a [`ErrorDetail`] value serializes to.
pub open spec fn error_detail_json(x: ErrorDetail) -> Json {
    Json::Obj(seq![("code"@, Json::Str(x.code@)), ("message"@, Json::Str(x.message@))])
}

/// Echo decoding for [`ErrorDetail`]: its document survives the wire, and any
/// record decoded from that document carries the same fields. With
/// [`ErrorDetail::of_json`]'s contract this closes the serialize-echo-
/// deserialize loop for this record.
pub proof fn lemma_error_detail_echo_decode(x: ErrorDetail, w: ErrorDetail)
    requires
        error_detail_matches(error_detail_json(x), w),
    ensures
        crate::json::sp_document(crate::json::ser(error_detail_json(x))) == Some(error_detail_json(x)),
        w.code@ == x.code@,
        w.message@ == x.message@,
{
    broadcast use vstd::string::group_string_axioms;

    reveal_strlit("code");
    reveal_strlit("message");
    assert("code"@.len() == 4);
    assert("message"@.len() == 7);
    let g = error_detail_json(x);
    let entries = g->Obj_0;
    assert forall|i: int| 0 <= i < entries.len() implies wf_json(#[trigger] entries[i].1) by {}
    lemma_wf_entries_from_forall(entries);
    crate::json::lemma_document_round_trip(g);
    crate::json::lemma_lookup_found(entries, "code"@, 0);
    crate::json::lemma_lookup_found(entries, "message"@, 1);
}

/// The wire document a [`AdminRevokeKeyResponse`] value serializes to.
pub open spec fn admin_revoke_key_resp_json(x: AdminRevokeKeyResponse) -> Json {
    Json::Obj(seq![("api_key_id"@, Json::Str(x.api_key_id@))])
}

/// Echo decoding for [`AdminRevokeKeyResponse`]: its document survives the wire, and any
/// record decoded from that document carries the same fields. With
/// [`AdminRevokeKeyResponse::of_json`]'s contract this closes the serialize-echo-
/// deserialize loop for this record.
pub proof fn lemma_admin_revoke_key_resp_echo_decode(x: AdminRevokeKeyResponse, w: AdminRevokeKeyResponse)
    requires
        admin_revoke_key_resp_matches(admin_revoke_key_resp_json(x), w),
    ensures
        crate::json::sp_document(crate::json::ser(admin_revoke_key_resp_json(x))) == Some(admin_revoke_key_resp_json(x)),
        w.api_key_id@ == x.api_key_id@,
{
    broadcast use vstd::string::group_string_axioms;

    reveal_strlit("api_key_id");
    assert("api_key_id"@.len() == 10);
    let g = admin_revoke_key_resp_json(x);
    let entries = g->Obj_0;
    assert forall|i: int| 0 <= i < entries.len() implies wf_json(#[trigger] entries[i].1) by {}
    lemma_wf_entries_from_forall(entries);
    crate::json::lemma_document_round_trip(g);
    crate::json::lemma_lookup_found(entries, "api_key_id"@, 0);
}

/// The wire document a [`DownloadTokenResponse`] value serializes to.
pub open spec fn download_token_resp_json(x: DownloadTokenResponse) -> Json {
    Json::Obj(seq![
            ("download_url"@, Json::Str(x.download_url@)),
            ("expires_at"@, Json::Int(x.expires_at as int)),
        ])
}

/// Echo decoding for [`DownloadTokenResponse`]: its document survives the wire, and any
/// record decoded from that document carries the same fields. With
/// [`DownloadTokenResponse::of_json`]'s contract this closes the serialize-echo-
/// deserialize loop for this record.
pub proof fn lemma_download_token_resp_echo_decode(x: DownloadTokenResponse, w: DownloadTokenResponse)
    requires
        download_token_resp_matches(download_token_resp_json(x), w),
    ensures
        crate::json::sp_document(crate::json::ser(download_token_resp_json(x))) == Some(download_token_resp_json(x)),
        w.download_url@ == x.download_url@,
        w.expires_at == x.expires_at,
{
    broadcast use vstd::string::group_string_axioms;

    reveal_strlit("download_url");
    reveal_strlit("expires_at");
    assert("download_url"@.len() == 12);
    assert("expires_at"@.len() == 10);
    let g = download_token_resp_json(x);
    let entries = g->Obj_0;
    assert forall|i: int| 0 <= i < entries.len() implies wf_json(#[trigger] entries[i].1) by {}
    lemma_wf_entries_from_forall(entries);
    crate::json::lemma_document_round_trip(g);
    crate::json::lemma_lookup_found(entries, "download_url"@, 0);
    crate::json::lemma_lookup_found(entries, "expires_at"@, 1);
}

/// The wire document a [`ArtifactPresignResponse`] value serializes to.
pub open spec fn artifact_presign_resp_json(x: ArtifactPresignResponse) -> Json {
    Json::Obj(seq![
            ("artifact_id"@, Json::Str(x.artifact_id@)),
            ("object_key"@, Json::Str(x.object_key@)),
            ("upload_url"@, Json::Str(x.upload_url@)),
            ("expires_at"@, Json::Int(x.expires_at as int)),
        ])
}

/// Echo decoding for [`ArtifactPresignResponse`]: its document survives the wire, and any
/// record decoded from that document carries the same fields. With
/// [`ArtifactPresignResponse::of_json`]'s contract this closes the serialize-echo-
/// deserialize loop for this record.
pub proof fn lemma_artifact_presign_resp_echo_decode(x: ArtifactPresignResponse, w: ArtifactPresignResponse)
    requires
        artifact_presign_resp_matches(artifact_presign_resp_json(x), w),
    ensures
        crate::json::sp_document(crate::json::ser(artifact_presign_resp_json(x))) == Some(artifact_presign_resp_json(x)),
        w.artifact_id@ == x.artifact_id@,
        w.object_key@ == x.object_key@,
        w.upload_url@ == x.upload_url@,
        w.expires_at == x.expires_at,
{
    broadcast use vstd::string::group_string_axioms;

    reveal_strlit("artifact_id");
    reveal_strlit("object_key");
    reveal_strlit("upload_url");
    reveal_strlit("expires_at");
    assert("artifact_id"@.len() == 11);
    assert("object_key"@.len() == 10);
    assert("upload_url"@.len() == 10);
    assert("expires_at"@.len() == 10);
    assert("object_key"@[0] == 'o' && "upload_url"@[0] == 'u' && "expires_at"@[0] == 'e');
    let g = artifact_presign_resp_json(x);
    let entries = g->Obj_0;
    assert forall|i: int| 0 <= i < entries.len() implies wf_json(#[trigger] entries[i].1) by {}
    lemma_wf_entries_from_forall(entries);
    crate::json::lemma_document_round_trip(g);
    crate::json::lemma_lookup_found(entries, "artifact_id"@, 0);
    crate::json::lemma_lookup_found(entries, "object_key"@, 1);
    crate::json::lemma_lookup_found(entries, "upload_url"@, 2);
    crate::json::lemma_lookup_found(entries, "expires_at"@, 3);
}

/// The wire document a [`ArtifactSummary`] value serializes to.
pub open spec fn artifact_summary_json(x: ArtifactSummary) -> Json {
    Json::Obj(seq![
            ("id"@, Json::Str(x.id@)),
            ("object_key"@, Json::Str(x.object_key@)),
            ("platform"@, Json::Str(x.platform@)),
            ("checksum"@, Json::Str(x.checksum@)),
            ("size"@, Json::Int(x.size as int)),
        ])
}

/// Echo decoding for [`ArtifactSummary`]: its document survives the wire, and any
/// record decoded from that document carries the same fields. With
/// [`ArtifactSummary::of_json`]'s contract this closes the serialize-echo-
/// deserialize loop for this record.
pub proof fn lemma_artifact_summary_echo_decode(x: ArtifactSummary, w: ArtifactSummary)
    requires
        artifact_summary_matches(artifact_summary_json(x), w),
    ensures
        crate::json::sp_document(crate::json::ser(artifact_summary_json(x))) == Some(artifact_summary_json(x)),
        w.id@ == x.id@,
        w.object_key@ == x.object_key@,
        w.platform@ == x.platform@,
        w.checksum@ == x.checksum@,
        w.size == x.size,
{
    broadcast use vstd::string::group_string_axioms;

    reveal_strlit("id");
    reveal_strlit("object_key");
    reveal_strlit("platform");
    reveal_strlit("checksum");
    reveal_strlit("size");
    assert("id"@.len() == 2);
    assert("object_key"@.len() == 10);
    assert("platform"@.len() == 8);
    assert("checksum"@.len() == 8);
    assert("size"@.len() == 4);
    assert("platform"@[0] == 'p' && "checksum"@[0] == 'c');
    let g = artifact_summary_json(x);
    let entries = g->Obj_0;
    assert forall|i: int| 0 <= i < entries.len() implies wf_json(#[trigger] entries[i].1) by {}
    lemma_wf_entries_from_forall(entries);
    crate::json::lemma_document_round_trip(g);
    crate::json::lemma_lookup_found(entries, "id"@, 0);
    crate::json::lemma_lookup_found(entries, "object_key"@, 1);
    crate::json::lemma_lookup_found(entries, "platform"@, 2);
    crate::json::lemma_lookup_found(entries, "checksum"@, 3);
    crate::json::lemma_lookup_found(entries, "size"@, 4);
}

/// The wire document a [`ArtifactRegisterResponse`] value serializes to.
pub open spec fn artifact_register_resp_json(x: ArtifactRegisterResponse) -> Json {
    Json::Obj(seq![
            ("id"@, Json::Str(x.id@)),
            ("release_id"@, Json::Str(x.release_id@)),
            ("object_key"@, Json::Str(x.object_key@)),
            ("checksum"@, Json::Str(x.checksum@)),
            ("size"@, Json::Int(x.size as int)),
            ("platform"@, Json::Str(x.platform@)),
            ("created_at"@, Json::Int(x.created_at as int)),
        ])
}

/// Echo decoding for [`ArtifactRegisterResponse`]: its document survives the wire, and any
/// record decoded from that document carries the same fields. With
/// [`ArtifactRegisterResponse::of_json`]'s contract this closes the serialize-echo-
/// deserialize loop for this record.
pub proof fn lemma_artifact_register_resp_echo_decode(x: ArtifactRegisterResponse, w: ArtifactRegisterResponse)
    requires
        artifact_register_resp_matches(artifact_register_resp_json(x), w),
    ensures
        crate::json::sp_document(crate::json::ser(artifact_register_resp_json(x))) == Some(artifact_register_resp_json(x)),
        w.id@ == x.id@,
        w.release_id@ == x.release_id@,
        w.object_key@ == x.object_key@,
        w.checksum@ == x.checksum@,
        w.size == x.size,
        w.platform@ == x.platform@,
        w.created_at == x.created_at,
{
    broadcast use vstd::string::group_string_axioms;

    reveal_strlit("id");
    reveal_strlit("release_id");
    reveal_strlit("object_key");
    reveal_strlit("checksum");
    reveal_strlit("size");
    reveal_strlit("platform");
    reveal_strlit("created_at");
    assert("id"@.len() == 2);
    assert("release_id"@.len() == 10);
    assert("object_key"@.len() == 10);
    assert("checksum"@.len() == 8);
    assert("size"@.len() == 4);
    assert("platform"@.len() == 8);
    assert("created_at"@.len() == 10);
    assert("release_id"@[0] == 'r' && "object_key"@[0] == 'o' && "created_at"@[0] == 'c');
    assert("checksum"@[0] == 'c' && "platform"@[0] == 'p');
    let g = artifact_register_resp_json(x);
    let entries = g->Obj_0;
    assert forall|i: int| 0 <= i < entries.len() implies wf_json(#[trigger] entries[i].1) by {}
    lemma_wf_entries_from_forall(entries);
    crate::json::lemma_document_round_trip(g);
    crate::json::lemma_lookup_found(entries, "id"@, 0);
    crate::json::lemma_lookup_found(entries, "release_id"@, 1);
    crate::json::lemma_lookup_found(entries, "object_key"@, 2);
    crate::json::lemma_lookup_found(entries, "checksum"@, 3);
    crate::json::lemma_lookup_found(entries, "size"@, 4);
    crate::json::lemma_lookup_found(entries, "platform"@, 5);
    crate::json::lemma_lookup_found(entries, "created_at"@, 6);
}

/// The wire document a [`AdminCustomerResponse`] value serializes to.
pub open spec fn admin_customer_json(x: AdminCustomerResponse) -> Json {
    Json::Obj(seq![
            ("id"@, Json::Str(x.id@)),
            ("name"@, Json::Str(x.name@)),
            ("created_at"@, Json::Int(x.created_at as int)),
        ] + opt_str_entry("plan"@, x.plan.deep_view()) + opt_int_entry(
            "suspended_at"@,
            oi64(x.suspended_at),
        ))
}

/// Echo decoding for [`AdminCustomerResponse`]: its document survives the wire, and any
/// record decoded from that document carries the same fields. With
/// [`AdminCustomerResponse::of_json`]'s contract this closes the serialize-echo-
/// deserialize loop for this record.
pub proof fn lemma_admin_customer_echo_decode(x: AdminCustomerResponse, w: AdminCustomerResponse)
    requires
        admin_customer_matches(admin_customer_json(x), w),
    ensures
        crate::json::sp_document(crate::json::ser(admin_customer_json(x))) == Some(admin_customer_json(x)),
        w.id@ == x.id@,
        w.name@ == x.name@,
        w.created_at == x.created_at,
        w.plan.deep_view() == x.plan.deep_view(),
        w.suspended_at == x.suspended_at,
{
    broadcast use vstd::string::group_string_axioms;

    reveal_strlit("id");
    reveal_strlit("name");
    reveal_strlit("created_at");
    reveal_strlit("plan");
    reveal_strlit("suspended_at");
    assert("id"@.len() == 2);
    assert("name"@.len() == 4);
    assert("created_at"@.len() == 10);
    assert("plan"@.len() == 4);
    assert("suspended_at"@.len() == 12);
    assert("name"@[0] == 'n' && "plan"@[0] == 'p');
    let g = admin_customer_json(x);
    let entries = g->Obj_0;
    assert forall|i: int| 0 <= i < entries.len() implies wf_json(#[trigger] entries[i].1) by {}
    lemma_wf_entries_from_forall(entries);
    crate::json::lemma_document_round_trip(g);
    crate::json::lemma_lookup_found(entries, "id"@, 0);
    crate::json::lemma_lookup_found(entries, "name"@, 1);
    crate::json::lemma_lookup_found(entries, "created_at"@, 2);
    match x.plan {
        Some(_) => {
            crate::json::lemma_lookup_found(entries, "plan"@, 3);
        },
        None => {
            crate::json::lemma_lookup_absent(entries, "plan"@);
        },
    }
    match (x.plan, x.suspended_at) {
        (Some(_), Some(_)) => {
            crate::json::lemma_lookup_found(entries, "suspended_at"@, 4);
        },
        (None, Some(_)) => {
            crate::json::lemma_lookup_found(entries, "suspended_at"@, 3);
        },
        (_, None) => {
            crate::json::lemma_lookup_absent(entries, "suspended_at"@);
        },
    }
}


proof fn lemma_jstrs_of_strs(ss: Seq<Seq<char>>)
    ensures
        jstrs(strs_json(ss)) == Some(ss),
    decreases ss.len(),
{
    if ss.len() == 0 {
        assert(strs_json(ss) =~= Seq::<Json>::empty());
    } else {
        let items = strs_json(ss);
        assert(items[0] == Json::Str(ss[0]));
        assert(items.subrange(1, items.len() as int) =~= strs_json(
            ss.subrange(1, ss.len() as int),
        ));
        lemma_jstrs_of_strs(ss.subrange(1, ss.len() as int));
        assert(jstrs(items) == Some(seq![ss[0]] + ss.subrange(1, ss.len() as int)));
        assert(seq![ss[0]] + ss.subrange(1, ss.len() as int) =~= ss);
    }
}

proof fn lemma_wf_strs(ss: Seq<Seq<char>>)
    ensures
        wf_json(Json::Arr(strs_json(ss))),
{
    let items = strs_json(ss);
    assert forall|k: int| 0 <= k < items.len() implies wf_json(#[trigger] items[k]) by {
        assert(items[k] == Json::Str(ss[k]));
    }
    lemma_wf_list_from_forall(items);
}

/// What an optional opaque JSON field reads back as: absent stays
/// absent, and an explicit null also reads back as absent — the same
/// tolerance the decoder applies.
pub open spec fn echoed_json(v: Option<JsonValue>) -> Option<Json> {
    match v {
        Some(m) => if jmodel(m) == Json::Null {
            None
        } else {
            Some(jmodel(m))
        },
        None => None,
    }
}

/// The wire document an [`AdminCreateKeyResponse`] value serializes to.
pub open spec fn admin_create_key_resp_json(x: AdminCreateKeyResponse) -> Json {
    Json::Obj(
        seq![
            ("api_key_id"@, Json::Str(x.api_key_id@)),
            ("api_key"@, Json::Str(x.api_key@)),
            ("customer_id"@, Json::Str(x.customer_id@)),
            ("key_type"@, Json::Str(x.key_type@)),
            ("scopes"@, Json::Arr(strs_json(strs_view(x.scopes@)))),
        ] + opt_int_entry("expires_at"@, oi64(x.expires_at)),
    )
}

/// Echo decoding for [`AdminCreateKeyResponse`]: its document survives
/// the wire, and any record decoded from that document carries the same
/// fields. With [`AdminCreateKeyResponse::of_json`]'s contract this
/// closes the serialize-echo-deserialize loop for this record.
pub proof fn lemma_admin_create_key_echo_decode(x: AdminCreateKeyResponse, w: AdminCreateKeyResponse)
    requires
        admin_create_key_resp_matches(admin_create_key_resp_json(x), w),
    ensures
        crate::json::sp_document(crate::json::ser(admin_create_key_resp_json(x))) == Some(
            admin_create_key_resp_json(x),
        ),
        w.api_key_id@ == x.api_key_id@,
        w.api_key@ == x.api_key@,
        w.customer_id@ == x.customer_id@,
        w.key_type@ == x.key_type@,
        strs_view(w.scopes@) == strs_view(x.scopes@),
        w.expires_at == x.expires_at,
{
    broadcast use vstd::string::group_string_axioms;

    reveal_strlit("api_key_id");
    reveal_strlit("api_key");
    reveal_strlit("customer_id");
    reveal_strlit("key_type");
    reveal_strlit("scopes");
    reveal_strlit("expires_at");
    assert("api_key_id"@.len() == 10);
    assert("api_key"@.len() == 7);
    assert("customer_id"@.len() == 11);
    assert("key_type"@.len() == 8);
    assert("scopes"@.len() == 6);
    assert("expires_at"@.len() == 10);
    assert("api_key_id"@[0] == 'a' && "expires_at"@[0] == 'e');
    let g = admin_create_key_resp_json(x);
    let entries = g->Obj_0;
    lemma_wf_strs(strs_view(x.scopes@));
    assert forall|i: int| 0 <= i < entries.len() implies wf_json(#[trigger] entries[i].1) by {}
    lemma_wf_entries_from_forall(entries);
    crate::json::lemma_document_round_trip(g);
    crate::json::lemma_lookup_found(entries, "api_key_id"@, 0);
    crate::json::lemma_lookup_found(entries, "api_key"@, 1);
    crate::json::lemma_lookup_found(entries, "customer_id"@, 2);
    crate::json::lemma_lookup_found(entries, "key_type"@, 3);
    crate::json::lemma_lookup_found(entries, "scopes"@, 4);
    lemma_jstrs_of_strs(strs_view(x.scopes@));
    match x.expires_at {
        Some(_) => {
            crate::json::lemma_lookup_found(entries, "expires_at"@, 5);
        },
        None => {
            crate::json::lemma_lookup_absent(entries, "expires_at"@);
        },
    }
}

/// The wire document an [`ApiKeyIntrospection`] value serializes to.
pub open spec fn api_key_introspection_json(x: ApiKeyIntrospection) -> Json {
    Json::Obj(
        seq![
            ("active"@, Json::Bool(x.active)),
            ("api_key_id"@, Json::Str(x.api_key_id@)),
            ("customer_id"@, Json::Str(x.customer_id@)),
            ("key_type"@, Json::Str(x.key_type@)),
            ("scopes"@, Json::Arr(strs_json(strs_view(x.scopes@)))),
        ] + opt_int_entry("expires_at"@, oi64(x.expires_at)),
    )
}

/// Echo decoding for [`ApiKeyIntrospection`], as
/// [`lemma_admin_create_key_echo_decode`].
pub proof fn lemma_api_key_introspection_echo_decode(x: ApiKeyIntrospection, w: ApiKeyIntrospection)
    requires
        api_key_introspection_matches(api_key_introspection_json(x), w),
    ensures
        crate::json::sp_document(crate::json::ser(api_key_introspection_json(x))) == Some(
            api_key_introspection_json(x),
        ),
        w.active == x.active,
        w.api_key_id@ == x.api_key_id@,
        w.customer_id@ == x.customer_id@,
        w.key_type@ == x.key_type@,
        strs_view(w.scopes@) == strs_view(x.scopes@),
        w.expires_at == x.expires_at,
{
    broadcast use vstd::string::group_string_axioms;

    reveal_strlit("active");
    reveal_strlit("api_key_id");
    reveal_strlit("customer_id");
    reveal_strlit("key_type");
    reveal_strlit("scopes");
    reveal_strlit("expires_at");
    assert("active"@.len() == 6);
    assert("api_key_id"@.len() == 10);
    assert("customer_id"@.len() == 11);
    assert("key_type"@.len() == 8);
    assert("scopes"@.len() == 6);
    assert("expires_at"@.len() == 10);
    assert("active"@[0] == 'a' && "scopes"@[0] == 's');
    assert("api_key_id"@[0] == 'a' && "expires_at"@[0] == 'e');
    let g = api_key_introspection_json(x);
    let entries = g->Obj_0;
    lemma_wf_strs(strs_view(x.scopes@));
    assert forall|i: int| 0 <= i < entries.len() implies wf_json(#[trigger] entries[i].1) by {}
    lemma_wf_entries_from_forall(entries);
    crate::json::lemma_document_round_trip(g);
    crate::json::lemma_lookup_found(entries, "active"@, 0);
    crate::json::lemma_lookup_found(entries, "api_key_id"@, 1);
    crate::json::lemma_lookup_found(entries, "customer_id"@, 2);
    crate::json::lemma_lookup_found(entries, "key_type"@, 3);
    crate::json::lemma_lookup_found(entries, "scopes"@, 4);
    lemma_jstrs_of_strs(strs_view(x.scopes@));
    match x.expires_at {
        Some(_) => {
            crate::json::lemma_lookup_found(entries, "expires_at"@, 5);
        },
        None => {
            crate::json::lemma_lookup_absent(entries, "expires_at"@);
        },
    }
}

/// The wire document an [`EntitlementResponse`] value serializes to.
pub open spec fn entitlement_resp_json(x: EntitlementResponse) -> Json {
    Json::Obj(
        seq![
            ("id"@, Json::Str(x.id@)),
            ("customer_id"@, Json::Str(x.customer_id@)),
            ("product"@, Json::Str(x.product@)),
            ("starts_at"@, Json::Int(x.starts_at as int)),
        ] + opt_int_entry("ends_at"@, oi64(x.ends_at)) + opt_json_entry(
            "metadata"@,
            match x.metadata {
                Some(m) => Some(jmodel(m)),
                None => None,
            },
        ),
    )
}

/// Echo decoding for [`EntitlementResponse`]: as the others; an opaque
/// metadata value is recovered exactly, except that an explicit null
/// reads back as absent, as the decoder tolerates.
pub proof fn lemma_entitlement_echo_decode(x: EntitlementResponse, w: EntitlementResponse)
    requires
        entitlement_matches(entitlement_resp_json(x), w),
    ensures
        crate::json::sp_document(crate::json::ser(entitlement_resp_json(x))) == Some(
            entitlement_resp_json(x),
        ),
        w.id@ == x.id@,
        w.customer_id@ == x.customer_id@,
        w.product@ == x.product@,
        w.starts_at == x.starts_at,
        w.ends_at == x.ends_at,
        ojson(w.metadata) == echoed_json(x.metadata),
{
    broadcast use vstd::string::group_string_axioms;

    reveal_strlit("id");
    reveal_strlit("customer_id");
    reveal_strlit("product");
    reveal_strlit("starts_at");
    reveal_strlit("ends_at");
    reveal_strlit("metadata");
    assert("id"@.len() == 2);
    assert("customer_id"@.len() == 11);
    assert("product"@.len() == 7);
    assert("starts_at"@.len() == 9);
    assert("ends_at"@.len() == 7);
    assert("metadata"@.len() == 8);
    assert("product"@[0] == 'p' && "ends_at"@[0] == 'e');
    let g = entitlement_resp_json(x);
    let entries = g->Obj_0;
    match x.metadata {
        Some(m) => {
            crate::json::lemma_jmodel_wf(m);
        },
        None => {},
    }
    assert forall|i: int| 0 <= i < entries.len() implies wf_json(#[trigger] entries[i].1) by {}
    lemma_wf_entries_from_forall(entries);
    crate::json::lemma_document_round_trip(g);
    crate::json::lemma_lookup_found(entries, "id"@, 0);
    crate::json::lemma_lookup_found(entries, "customer_id"@, 1);
    crate::json::lemma_lookup_found(entries, "product"@, 2);
    crate::json::lemma_lookup_found(entries, "starts_at"@, 3);
    match x.ends_at {
        Some(_) => {
            crate::json::lemma_lookup_found(entries, "ends_at"@, 4);
        },
        None => {
            crate::json::lemma_lookup_absent(entries, "ends_at"@);
        },
    }
    match (x.ends_at, x.metadata) {
        (Some(_), Some(_)) => {
            crate::json::lemma_lookup_found(entries, "metadata"@, 5);
        },
        (None, Some(_)) => {
            crate::json::lemma_lookup_found(entries, "metadata"@, 4);
        },
        (_, None) => {
            crate::json::lemma_lookup_absent(entries, "metadata"@);
        },
    }
}

/// The wire document an [`AuditEventResponse`] value serializes to.
pub open spec fn audit_event_resp_json(x: AuditEventResponse) -> Json {
    Json::Obj(
        seq![
            ("id"@, Json::Str(x.id@)),
            ("actor"@, Json::Str(x.actor@)),
            ("event"@, Json::Str(x.event@)),
            ("created_at"@, Json::Int(x.created_at as int)),
        ] + opt_str_entry("customer_id"@, x.customer_id.deep_view()) + opt_json_entry(
            "payload"@,
            match x.payload {
                Some(m) => Some(jmodel(m)),
                None => None,
            },
        ),
    )
}

/// Echo decoding for [`AuditEventResponse`], as
/// [`lemma_entitlement_echo_decode`].
pub proof fn lemma_audit_event_echo_decode(x: AuditEventResponse, w: AuditEventResponse)
    requires
        audit_event_matches(audit_event_resp_json(x), w),
    ensures
        crate::json::sp_document(crate::json::ser(audit_event_resp_json(x))) == Some(
            audit_event_resp_json(x),
        ),
        w.id@ == x.id@,
        w.actor@ == x.actor@,
        w.event@ == x.event@,
        w.created_at == x.created_at,
        w.customer_id.deep_view() == x.customer_id.deep_view(),
        ojson(w.payload) == echoed_json(x.payload),
{
    broadcast use vstd::string::group_string_axioms;

    reveal_strlit("id");
    reveal_strlit("actor");
    reveal_strlit("event");
    reveal_strlit("created_at");
    reveal_strlit("customer_id");
    reveal_strlit("payload");
    assert("id"@.len() == 2);
    assert("actor"@.len() == 5);
    assert("event"@.len() == 5);
    assert("created_at"@.len() == 10);
    assert("customer_id"@.len() == 11);
    assert("payload"@.len() == 7);
    assert("actor"@[0] == 'a' && "event"@[0] == 'e');
    let g = audit_event_resp_json(x);
    let entries = g->Obj_0;
    match x.payload {
        Some(m) => {
            crate::json::lemma_jmodel_wf(m);
        },
        None => {},
    }
    assert forall|i: int| 0 <= i < entries.len() implies wf_json(#[trigger] entries[i].1) by {}
    lemma_wf_entries_from_forall(entries);
    crate::json::lemma_document_round_trip(g);
    crate::json::lemma_lookup_found(entries, "id"@, 0);
    crate::json::lemma_lookup_found(entries, "actor"@, 1);
    crate::json::lemma_lookup_found(entries, "event"@, 2);
    crate::json::lemma_lookup_found(entries, "created_at"@, 3);
    match x.customer_id {
        Some(_) => {
            crate::json::lemma_lookup_found(entries, "customer_id"@, 4);
        },
        None => {
            crate::json::lemma_lookup_absent(entries, "customer_id"@);
        },
    }
    match (x.customer_id, x.payload) {
        (Some(_), Some(_)) => {
            crate::json::lemma_lookup_found(entries, "payload"@, 5);
        },
        (None, Some(_)) => {
            crate::json::lemma_lookup_found(entries, "payload"@, 4);
        },
        (_, None) => {
            crate::json::lemma_lookup_absent(entries, "payload"@);
        },
    }
}

/// The wire document a [`UserResponse`] value serializes to.
pub open spec fn user_resp_json(x: UserResponse) -> Json {
    Json::Obj(
        seq![
            ("id"@, Json::Str(x.id@)),
            ("keycloak_user_id"@, Json::Str(x.keycloak_user_id@)),
            ("customer_id"@, Json::Str(x.customer_id@)),
            ("email"@, Json::Str(x.email@)),
            ("status"@, Json::Str(x.status@)),
            ("groups"@, Json::Arr(strs_json(strs_view(x.groups@)))),
            ("created_at"@, Json::Int(x.created_at as int)),
            ("updated_at"@, Json::Int(x.updated_at as int)),
        ] + opt_str_entry("display_name"@, x.display_name.deep_view()) + opt_json_entry(
            "metadata"@,
            match x.metadata {
                Some(m) => Some(jmodel(m)),
                None => None,
            },
        ),
    )
}

/// Echo decoding for [`UserResponse`], as
/// [`lemma_entitlement_echo_decode`].
pub proof fn lemma_user_echo_decode(x: UserResponse, w: UserResponse)
    requires
        user_matches(user_resp_json(x), w),
    ensures
        crate::json::sp_document(crate::json::ser(user_resp_json(x))) == Some(user_resp_json(x)),
        w.id@ == x.id@,
        w.keycloak_user_id@ == x.keycloak_user_id@,
        w.customer_id@ == x.customer_id@,
        w.email@ == x.email@,
        w.status@ == x.status@,
        strs_view(w.groups@) == strs_view(x.groups@),
        w.created_at == x.created_at,
        w.updated_at == x.updated_at,
        w.display_name.deep_view() == x.display_name.deep_view(),
        ojson(w.metadata) == echoed_json(x.metadata),
{
    broadcast use vstd::string::group_string_axioms;

    reveal_strlit("id");
    reveal_strlit("keycloak_user_id");
    reveal_strlit("customer_id");
    reveal_strlit("email");
    reveal_strlit("status");
    reveal_strlit("groups");
    reveal_strlit("created_at");
    reveal_strlit("updated_at");
    reveal_strlit("display_name");
    reveal_strlit("metadata");
    assert("id"@.len() == 2);
    assert("keycloak_user_id"@.len() == 16);
    assert("customer_id"@.len() == 11);
    assert("email"@.len() == 5);
    assert("status"@.len() == 6);
    assert("groups"@.len() == 6);
    assert("created_at"@.len() == 10);
    assert("updated_at"@.len() == 10);
    assert("display_name"@.len() == 12);
    assert("metadata"@.len() == 8);
    assert("status"@[0] == 's' && "groups"@[0] == 'g');
    assert("created_at"@[0] == 'c' && "updated_at"@[0] == 'u');
    let g = user_resp_json(x);
    let entries = g->Obj_0;
    lemma_wf_strs(strs_view(x.groups@));
    match x.metadata {
        Some(m) => {
            crate::json::lemma_jmodel_wf(m);
        },
        None => {},
    }
    assert forall|i: int| 0 <= i < entries.len() implies wf_json(#[trigger] entries[i].1) by {}
    lemma_wf_entries_from_forall(entries);
    crate::json::lemma_document_round_trip(g);
    crate::json::lemma_lookup_found(entries, "id"@, 0);
    crate::json::lemma_lookup_found(entries, "keycloak_user_id"@, 1);
    crate::json::lemma_lookup_found(entries, "customer_id"@, 2);
    crate::json::lemma_lookup_found(entries, "email"@, 3);
    crate::json::lemma_lookup_found(entries, "status"@, 4);
    crate::json::lemma_lookup_found(entries, "groups"@, 5);
    lemma_jstrs_of_strs(strs_view(x.groups@));
    crate::json::lemma_lookup_found(entries, "created_at"@, 6);
    crate::json::lemma_lookup_found(entries, "updated_at"@, 7);
    match x.display_name {
        Some(_) => {
            crate::json::lemma_lookup_found(entries, "display_name"@, 8);
        },
        None => {
            crate::json::lemma_lookup_absent(entries, "display_name"@);
        },
    }
    match (x.display_name, x.metadata) {
        (Some(_), Some(_)) => {
            crate::json::lemma_lookup_found(entries, "metadata"@, 9);
        },
        (None, Some(_)) => {
            crate::json::lemma_lookup_found(entries, "metadata"@, 8);
        },
        (_, None) => {
            crate::json::lemma_lookup_absent(entries, "metadata"@);
        },
    }
}


/// The wire document an [`ErrorBody`] value serializes to: the nested
/// canonical error shape.
pub open spec fn error_body_json(x: ErrorBody) -> Json {
    Json::Obj(seq![("error"@, error_detail_json(x.error))])
}

/// Echo decoding for [`ErrorBody`]: the nested document survives the
/// wire, and any record decoded from it carries the same code and
/// message.
pub proof fn lemma_error_body_echo_decode(x: ErrorBody, w: ErrorBody)
    requires
        error_body_matches(error_body_json(x), w),
    ensures
        crate::json::sp_document(crate::json::ser(error_body_json(x))) == Some(error_body_json(x)),
        w.error.code@ == x.error.code@,
        w.error.message@ == x.error.message@,
{
    let inner = error_detail_json(x.error)->Obj_0;
    assert forall|i: int| 0 <= i < inner.len() implies wf_json(#[trigger] inner[i].1) by {}
    lemma_wf_entries_from_forall(inner);
    let g = error_body_json(x);
    let entries = g->Obj_0;
    assert forall|i: int| 0 <= i < entries.len() implies wf_json(#[trigger] entries[i].1) by {}
    lemma_wf_entries_from_forall(entries);
    crate::json::lemma_document_round_trip(g);
    crate::json::lemma_lookup_found(entries, "error"@, 0);
    broadcast use vstd::string::group_string_axioms;

    reveal_strlit("code");
    reveal_strlit("message");
    assert("code"@.len() == 4);
    assert("message"@.len() == 7);
    crate::json::lemma_lookup_found(inner, "code"@, 0);
    crate::json::lemma_lookup_found(inner, "message"@, 1);
}

/// Every element decodes to the record at its index.
pub open spec fn customers_rel(items: Seq<Json>, xs: Seq<AdminCustomerResponse>) -> bool {
    xs.len() == items.len() && forall|i: int|
        0 <= i < items.len() ==> admin_customer_matches(#[trigger] items[i], xs[i])
}

fn read_customers(items: &Vec<JsonValue>) -> (r: Option<Vec<AdminCustomerResponse>>)
    ensures
        match r {
            Some(xs) => customers_rel(jmodel_list(items@), xs@),
            None => forall|xs: Seq<AdminCustomerResponse>|
                !customers_rel(jmodel_list(items@), xs),
        },
{
    let count = items.len();
    let mut out: Vec<AdminCustomerResponse> = Vec::new();
    let mut i: usize = 0;
    while i < count
        invariant
            count == items@.len(),
            i <= count,
            out@.len() == i,
            forall|q: int|
                0 <= q < i ==> admin_customer_matches(
                    #[trigger] jmodel_list(items@)[q],
                    out@[q],
                ),
        decreases count - i,
    {
        proof {
            broadcast use lemma_jmodel_list_len, lemma_jmodel_list_index;

        }
        let item = &items[i];
        match AdminCustomerResponse::of_json(item) {
            Some(x) => {
                out.push(x);
            },
            None => {
                proof {
                    broadcast use lemma_jmodel_list_len, lemma_jmodel_list_index;

                    let m = jmodel_list(items@);
                    assert forall|xs: Seq<AdminCustomerResponse>| !customers_rel(m, xs) by {
                        if xs.len() == m.len() {
                            assert(forall|x: AdminCustomerResponse| !admin_customer_matches(item@, x));
                            assert(m[i as int] == item@);
                            assert(!admin_customer_matches(m[i as int], xs[i as int]));
                        }
                    }
                }
                return None;
            },
        }
        i = i + 1;
    }
    proof {
        broadcast use lemma_jmodel_list_len, lemma_jmodel_list_index;

    }
    Some(out)
}

/// The field equations a decoded [`AdminCustomerListResponse`] satisfies.
pub open spec fn admin_customer_list_matches(g: Json, x: AdminCustomerListResponse) -> bool {
    &&& (match jfield(g, "customers"@) {
        Some(Json::Arr(items)) => customers_rel(items, x.customers@),
        _ => false,
    })
    &&& jint_field(g, "limit"@) == Some(x.limit as int)
    &&& jint_field(g, "offset"@) == Some(x.offset as int)
}

impl AdminCustomerListResponse {
    /// Decode from a parsed document; `None` exactly when no record fits.
    pub fn of_json(v: &JsonValue) -> (r: Option<Self>)
        ensures
            match r {
                Some(x) => admin_customer_list_matches(v@, x),
                None => forall|x: AdminCustomerListResponse|
                    !admin_customer_list_matches(v@, x),
            },
    {
        let customers = match get_field(v, "customers") {
            Some(f) => match f {
                JsonValue::Arr(items) => match read_customers(items) {
                    Some(xs) => xs,
                    None => {
                        proof {
                            assert forall|x: AdminCustomerListResponse| !admin_customer_list_matches(v@, x) by {
                                assert(!customers_rel(jmodel_list(items@), x.customers@));
                            }
                        }
                        return None;
                    },
                },
                _ => {
                    return None;
                },
            },
            None => {
                return None;
            },
        };
        let limit = match req_i64(v, "limit") {
            Some(n) => n,
            None => {
                return None;
            },
        };
        let offset = match req_i64(v, "offset") {
            Some(n) => n,
            None => {
                return None;
            },
        };
        Some(AdminCustomerListResponse { customers, limit, offset })
    }
}

/// The field equations a decoded [`UserResponse`] satisfies.
pub open spec fn user_matches(g: Json, x: UserResponse) -> bool {
    &&& jstr_field(g, "id"@) == Some(x.id@)
    &&& jstr_field(g, "keycloak_user_id"@) == Some(x.keycloak_user_id@)
    &&& jstr_field(g, "customer_id"@) == Some(x.customer_id@)
    &&& jstr_field(g, "email"@) == Some(x.email@)
    &&& jstr_field(g, "status"@) == Some(x.status@)
    &&& jstrlist_field(g, "groups"@) == Some(strs_view(x.groups@))
    &&& jint_field(g, "created_at"@) == Some(x.created_at as int)
    &&& jint_field(g, "updated_at"@) == Some(x.updated_at as int)
    &&& jopt_str_field(g, "display_name"@) == Some(x.display_name.deep_view())
    &&& jopt_json_field(g, "metadata"@) == ojson(x.metadata)
}

impl UserResponse {
    /// Decode from a parsed document; `None` exactly when no record fits.
    pub fn of_json(v: &JsonValue) -> (r: Option<Self>)
        ensures
            match r {
                Some(x) => user_matches(v@, x),
                None => forall|x: UserResponse| !user_matches(v@, x),
            },
    {
        let id = match req_str(v, "id") {
            Some(s) => s,
            None => {
                return None;
            },
        };
        let keycloak_user_id = match req_str(v, "keycloak_user_id") {
            Some(s) => s,
            None => {
                return None;
            },
        };
        let customer_id = match req_str(v, "customer_id") {
            Some(s) => s,
            None => {
                return None;
            },
        };
        let email = match req_str(v, "email") {
            Some(s) => s,
            None => {
                return None;
            },
        };
        let status = match req_str(v, "status") {
            Some(s) => s,
            None => {
                return None;
            },
        };
        let groups = match req_strlist(v, "groups") {
            Some(g) => g,
            None => {
                return None;
            },
        };
        let created_at = match req_i64(v, "created_at") {
            Some(n) => n,
            None => {
                return None;
            },
        };
        let updated_at = match req_i64(v, "updated_at") {
            Some(n) => n,
            None => {
                return None;
            },
        };
        let display_name = match opt_str(v, "display_name") {
            Some(o) => o,
            None => {
                return None;
            },
        };
        let metadata = opt_json(v, "metadata");
        Some(
            UserResponse {
                id,
                keycloak_user_id,
                customer_id,
                email,
                status,
                groups,
                created_at,
                updated_at,
                display_name,
                metadata,
            },
        )
    }
}

/// Every element decodes to the record at its index.
pub open spec fn users_rel(items: Seq<Json>, xs: Seq<UserResponse>) -> bool {
    xs.len() == items.len() && forall|i: int|
        0 <= i < items.len() ==> user_matches(#[trigger] items[i], xs[i])
}

fn read_users(items: &Vec<JsonValue>) -> (r: Option<Vec<UserResponse>>)
    ensures
        match r {
            Some(xs) => users_rel(jmodel_list(items@), xs@),
            None => forall|xs: Seq<UserResponse>| !users_rel(jmodel_list(items@), xs),
        },
{
    let count = items.len();
    let mut out: Vec<UserResponse> = Vec::new();
    let mut i: usize = 0;
    while i < count
        invariant
            count == items@.len(),
            i <= count,
            out@.len() == i,
            forall|q: int|
                0 <= q < i ==> user_matches(#[trigger] jmodel_list(items@)[q], out@[q]),
        decreases count - i,
    {
        proof {
            broadcast use lemma_jmodel_list_len, lemma_jmodel_list_index;

        }
        let item = &items[i];
        match UserResponse::of_json(item) {
            Some(x) => {
                out.push(x);
            },
            None => {
                proof {
                    broadcast use lemma_jmodel_list_len, lemma_jmodel_list_index;

                    let m = jmodel_list(items@);
                    assert forall|xs: Seq<UserResponse>| !users_rel(m, xs) by {
                        if xs.len() == m.len() {
                            assert(forall|x: UserResponse| !user_matches(item@, x));
                            assert(m[i as int] == item@);
                            assert(!user_matches(m[i as int], xs[i as int]));
                        }
                    }
                }
                return None;
            },
        }
        i = i + 1;
    }
    proof {
        broadcast use lemma_jmodel_list_len, lemma_jmodel_list_index;

    }
    Some(out)
}

/// The field equations a decoded [`UserListResponse`] satisfies.
pub open spec fn user_list_matches(g: Json, x: UserListResponse) -> bool {
    &&& (match jfield(g, "users"@) {
        Some(Json::Arr(items)) => users_rel(items, x.users@),
        _ => false,
    })
    &&& jopt_str_field(g, "next_cursor"@) == Some(x.next_cursor.deep_view())
}

impl UserListResponse {
    /// Decode from a parsed document; `None` exactly when no record fits.
    pub fn of_json(v: &JsonValue) -> (r: Option<Self>)
        ensures
            match r {
                Some(x) => user_list_matches(v@, x),
                None => forall|x: UserListResponse| !user_list_matches(v@, x),
            },
    {
        let users = match get_field(v, "users") {
            Some(f) => match f {
                JsonValue::Arr(items) => match read_users(items) {
                    Some(xs) => xs,
                    None => {
                        proof {
                            assert forall|x: UserListResponse| !user_list_matches(v@, x) by {
                                assert(!users_rel(jmodel_list(items@), x.users@));
                            }
                        }
                        return None;
                    },
                },
                _ => {
                    return None;
                },
            },
            None => {
                return None;
            },
        };
        let next_cursor = match opt_str(v, "next_cursor") {
            Some(o) => o,
            None => {
                return None;
            },
        };
        Some(UserListResponse { users, next_cursor })
    }
}

/// The field equations a decoded [`EntitlementResponse`] satisfies.
pub open spec fn entitlement_matches(g: Json, x: EntitlementResponse) -> bool {
    &&& jstr_field(g, "id"@) == Some(x.id@)
    &&& jstr_field(g, "customer_id"@) == Some(x.customer_id@)
    &&& jstr_field(g, "product"@) == Some(x.product@)
    &&& jint_field(g, "starts_at"@) == Some(x.starts_at as int)
    &&& jopt_int_field(g, "ends_at"@) == Some(oi64(x.ends_at))
    &&& jopt_json_field(g, "metadata"@) == ojson(x.metadata)
}

impl EntitlementResponse {
    /// Decode from a parsed document; `None` exactly when no record fits.
    pub fn of_json(v: &JsonValue) -> (r: Option<Self>)
        ensures
            match r {
                Some(x) => entitlement_matches(v@, x),
                None => forall|x: EntitlementResponse| !entitlement_matches(v@, x),
            },
    {
        let id = match req_str(v, "id") {
            Some(s) => s,
            None => {
                return None;
            },
        };
        let customer_id = match req_str(v, "customer_id") {
            Some(s) => s,
            None => {
                return None;
            },
        };
        let product = match req_str(v, "product") {
            Some(s) => s,
            None => {
                return None;
            },
        };
        let starts_at = match req_i64(v, "starts_at") {
            Some(n) => n,
            None => {
                return None;
            },
        };
        let ends_at = match opt_i64(v, "ends_at") {
            Some(o) => o,
            None => {
                return None;
            },
        };
        let metadata = opt_json(v, "metadata");
        Some(EntitlementResponse { id, customer_id, product, starts_at, ends_at, metadata })
    }
}

/// Every element decodes to the record at its index.
pub open spec fn entitlements_rel(items: Seq<Json>, xs: Seq<EntitlementResponse>) -> bool {
    xs.len() == items.len() && forall|i: int|
        0 <= i < items.len() ==> entitlement_matches(#[trigger] items[i], xs[i])
}

fn read_entitlements(items: &Vec<JsonValue>) -> (r: Option<Vec<EntitlementResponse>>)
    ensures
        match r {
            Some(xs) => entitlements_rel(jmodel_list(items@), xs@),
            None => forall|xs: Seq<EntitlementResponse>|
                !entitlements_rel(jmodel_list(items@), xs),
        },
{
    let count = items.len();
    let mut out: Vec<EntitlementResponse> = Vec::new();
    let mut i: usize = 0;
    while i < count
        invariant
            count == items@.len(),
            i <= count,
            out@.len() == i,
            forall|q: int|
                0 <= q < i ==> entitlement_matches(#[trigger] jmodel_list(items@)[q], out@[q]),
        decreases count - i,
    {
        proof {
            broadcast use lemma_jmodel_list_len, lemma_jmodel_list_index;

        }
        let item = &items[i];
        match EntitlementResponse::of_json(item) {
            Some(x) => {
                out.push(x);
            },
            None => {
                proof {
                    broadcast use lemma_jmodel_list_len, lemma_jmodel_list_index;

                    let m = jmodel_list(items@);
                    assert forall|xs: Seq<EntitlementResponse>| !entitlements_rel(m, xs) by {
                        if xs.len() == m.len() {
                            assert(forall|x: EntitlementResponse| !entitlement_matches(item@, x));
                            assert(m[i as int] == item@);
                            assert(!entitlement_matches(m[i as int], xs[i as int]));
                        }
                    }
                }
                return None;
            },
        }
        i = i + 1;
    }
    proof {
        broadcast use lemma_jmodel_list_len, lemma_jmodel_list_index;

    }
    Some(out)
}

/// The field equations a decoded [`EntitlementListResponse`] satisfies.
pub open spec fn entitlement_list_matches(g: Json, x: EntitlementListResponse) -> bool {
    &&& (match jfield(g, "entitlements"@) {
        Some(Json::Arr(items)) => entitlements_rel(items, x.entitlements@),
        _ => false,
    })
    &&& jint_field(g, "limit"@) == Some(x.limit as int)
    &&& jint_field(g, "offset"@) == Some(x.offset as int)
}

impl EntitlementListResponse {
    /// Decode from a parsed document; `None` exactly when no record fits.
    pub fn of_json(v: &JsonValue) -> (r: Option<Self>)
        ensures
            match r {
                Some(x) => entitlement_list_matches(v@, x),
                None => forall|x: EntitlementListResponse| !entitlement_list_matches(v@, x),
            },
    {
        let entitlements = match get_field(v, "entitlements") {
            Some(f) => match f {
                JsonValue::Arr(items) => match read_entitlements(items) {
                    Some(xs) => xs,
                    None => {
                        proof {
                            assert forall|x: EntitlementListResponse| !entitlement_list_matches(v@, x) by {
                                assert(!entitlements_rel(jmodel_list(items@), x.entitlements@));
                            }
                        }
                        return None;
                    },
                },
                _ => {
                    return None;
                },
            },
            None => {
                return None;
            },
        };
        let limit = match req_i64(v, "limit") {
            Some(n) => n,
            None => {
                return None;
            },
        };
        let offset = match req_i64(v, "offset") {
            Some(n) => n,
            None => {
                return None;
            },
        };
        Some(EntitlementListResponse { entitlements, limit, offset })
    }
}

/// The field equations a decoded [`AuditEventResponse`] satisfies.
pub open spec fn audit_event_matches(g: Json, x: AuditEventResponse) -> bool {
    &&& jstr_field(g, "id"@) == Some(x.id@)
    &&& jstr_field(g, "actor"@) == Some(x.actor@)
    &&& jstr_field(g, "event"@) == Some(x.event@)
    &&& jint_field(g, "created_at"@) == Some(x.created_at as int)
    &&& jopt_str_field(g, "customer_id"@) == Some(x.customer_id.deep_view())
    &&& jopt_json_field(g, "payload"@) == ojson(x.payload)
}

impl AuditEventResponse {
    /// Decode from a parsed document; `None` exactly when no record fits.
    pub fn of_json(v: &JsonValue) -> (r: Option<Self>)
        ensures
            match r {
                Some(x) => audit_event_matches(v@, x),
                None => forall|x: AuditEventResponse| !audit_event_matches(v@, x),
            },
    {
        let id = match req_str(v, "id") {
            Some(s) => s,
            None => {
                return None;
            },
        };
        let actor = match req_str(v, "actor") {
            Some(s) => s,
            None => {
                return None;
            },
        };
        let event = match req_str(v, "event") {
            Some(s) => s,
            None => {
                return None;
            },
        };
        let created_at = match req_i64(v, "created_at") {
            Some(n) => n,
            None => {
                return None;
            },
        };
        let customer_id = match opt_str(v, "customer_id") {
            Some(o) => o,
            None => {
                return None;
            },
        };
        let payload = opt_json(v, "payload");
        Some(AuditEventResponse { id, actor, event, created_at, customer_id, payload })
    }
}

/// Every element decodes to the record at its index.
pub open spec fn audit_events_rel(items: Seq<Json>, xs: Seq<AuditEventResponse>) -> bool {
    xs.len() == items.len() && forall|i: int|
        0 <= i < items.len() ==> audit_event_matches(#[trigger] items[i], xs[i])
}

fn read_audit_events(items: &Vec<JsonValue>) -> (r: Option<Vec<AuditEventResponse>>)
    ensures
        match r {
            Some(xs) => audit_events_rel(jmodel_list(items@), xs@),
            None => forall|xs: Seq<AuditEventResponse>|
                !audit_events_rel(jmodel_list(items@), xs),
        },
{
    let count = items.len();
    let mut out: Vec<AuditEventResponse> = Vec::new();
    let mut i: usize = 0;
    while i < count
        invariant
            count == items@.len(),
            i <= count,
            out@.len() == i,
            forall|q: int|
                0 <= q < i ==> audit_event_matches(#[trigger] jmodel_list(items@)[q], out@[q]),
        decreases count - i,
    {
        proof {
            broadcast use lemma_jmodel_list_len, lemma_jmodel_list_index;

        }
        let item = &items[i];
        match AuditEventResponse::of_json(item) {
            Some(x) => {
                out.push(x);
            },
            None => {
                proof {
                    broadcast use lemma_jmodel_list_len, lemma_jmodel_list_index;

                    let m = jmodel_list(items@);
                    assert forall|xs: Seq<AuditEventResponse>| !audit_events_rel(m, xs) by {
                        if xs.len() == m.len() {
                            assert(forall|x: AuditEventResponse| !audit_event_matches(item@, x));
                            assert(m[i as int] == item@);
                            assert(!audit_event_matches(m[i as int], xs[i as int]));
                        }
                    }
                }
                return None;
            },
        }
        i = i + 1;
    }
    proof {
        broadcast use lemma_jmodel_list_len, lemma_jmodel_list_index;

    }
    Some(out)
}

/// The field equations a decoded [`AuditEventListResponse`] satisfies.
pub open spec fn audit_event_list_matches(g: Json, x: AuditEventListResponse) -> bool {
    &&& (match jfield(g, "events"@) {
        Some(Json::Arr(items)) => audit_events_rel(items, x.events@),
        _ => false,
    })
    &&& jint_field(g, "limit"@) == Some(x.limit as int)
    &&& jint_field(g, "offset"@) == Some(x.offset as int)
}

impl AuditEventListResponse {
    /// Decode from a parsed document; `None` exactly when no record fits.
    pub fn of_json(v: &JsonValue) -> (r: Option<Self>)
        ensures
            match r {
                Some(x) => audit_event_list_matches(v@, x),
                None => forall|x: AuditEventListResponse| !audit_event_list_matches(v@, x),
            },
    {
        let events = match get_field(v, "events") {
            Some(f) => match f {
                JsonValue::Arr(items) => match read_audit_events(items) {
                    Some(xs) => xs,
                    None => {
                        proof {
                            assert forall|x: AuditEventListResponse| !audit_event_list_matches(v@, x) by {
                                assert(!audit_events_rel(jmodel_list(items@), x.events@));
                            }
                        }
                        return None;
                    },
                },
                _ => {
                    return None;
                },
            },
            None => {
                return None;
            },
        };
        let limit = match req_i64(v, "limit") {
            Some(n) => n,
            None => {
                return None;
            },
        };
        let offset = match req_i64(v, "offset") {
            Some(n) => n,
            None => {
                return None;
            },
        };
        Some(AuditEventListResponse { events, limit, offset })
    }
}

/// The field equations a decoded [`AdminCreateKeyResponse`] satisfies.
pub open spec fn admin_create_key_resp_matches(g: Json, x: AdminCreateKeyResponse) -> bool {
    &&& jstr_field(g, "api_key_id"@) == Some(x.api_key_id@)
    &&& jstr_field(g, "api_key"@) == Some(x.api_key@)
    &&& jstr_field(g, "customer_id"@) == Some(x.customer_id@)
    &&& jstr_field(g, "key_type"@) == Some(x.key_type@)
    &&& jstrlist_field(g, "scopes"@) == Some(strs_view(x.scopes@))
    &&& jopt_int_field(g, "expires_at"@) == Some(oi64(x.expires_at))
}

impl AdminCreateKeyResponse {
    /// Decode from a parsed document; `None` exactly when no record fits.
    pub fn of_json(v: &JsonValue) -> (r: Option<Self>)
        ensures
            match r {
                Some(x) => admin_create_key_resp_matches(v@, x),
                None => forall|x: AdminCreateKeyResponse| !admin_create_key_resp_matches(v@, x),
            },
    {
        let api_key_id = match req_str(v, "api_key_id") {
            Some(s) => s,
            None => {
                return None;
            },
        };
        let api_key = match req_str(v, "api_key") {
            Some(s) => s,
            None => {
                return None;
            },
        };
        let customer_id = match req_str(v, "customer_id") {
            Some(s) => s,
            None => {
                return None;
            },
        };
        let key_type = match req_str(v, "key_type") {
            Some(s) => s,
            None => {
                return None;
            },
        };
        let scopes = match req_strlist(v, "scopes") {
            Some(g) => g,
            None => {
                return None;
            },
        };
        let expires_at = match opt_i64(v, "expires_at") {
            Some(o) => o,
            None => {
                return None;
            },
        };
        Some(
            AdminCreateKeyResponse {
                api_key_id,
                api_key,
                customer_id,
                key_type,
                scopes,
                expires_at,
            },
        )
    }
}

/// The field equations a decoded [`AdminRevokeKeyResponse`] satisfies.
pub open spec fn admin_revoke_key_resp_matches(g: Json, x: AdminRevokeKeyResponse) -> bool {
    jstr_field(g, "api_key_id"@) == Some(x.api_key_id@)
}

impl AdminRevokeKeyResponse {
    /// Decode from a parsed document; `None` exactly when no record fits.
    pub fn of_json(v: &JsonValue) -> (r: Option<Self>)
        ensures
            match r {
                Some(x) => admin_revoke_key_resp_matches(v@, x),
                None => forall|x: AdminRevokeKeyResponse| !admin_revoke_key_resp_matches(v@, x),
            },
    {
        let api_key_id = match req_str(v, "api_key_id") {
            Some(s) => s,
            None => {
                return None;
            },
        };
        Some(AdminRevokeKeyResponse { api_key_id })
    }
}

/// The field equations a decoded [`ApiKeyIntrospection`] satisfies.
pub open spec fn api_key_introspection_matches(g: Json, x: ApiKeyIntrospection) -> bool {
    &&& jbool_field(g, "active"@) == Some(x.active)
    &&& jstr_field(g, "api_key_id"@) == Some(x.api_key_id@)
    &&& jstr_field(g, "customer_id"@) == Some(x.customer_id@)
    &&& jstr_field(g, "key_type"@) == Some(x.key_type@)
    &&& jstrlist_field(g, "scopes"@) == Some(strs_view(x.scopes@))
    &&& jopt_int_field(g, "expires_at"@) == Some(oi64(x.expires_at))
}

impl ApiKeyIntrospection {
    /// Decode from a parsed document; `None` exactly when no record fits.
    pub fn of_json(v: &JsonValue) -> (r: Option<Self>)
        ensures
            match r {
                Some(x) => api_key_introspection_matches(v@, x),
                None => forall|x: ApiKeyIntrospection| !api_key_introspection_matches(v@, x),
            },
    {
        let active = match req_bool(v, "active") {
            Some(b) => b,
            None => {
                return None;
            },
        };
        let api_key_id = match req_str(v, "api_key_id") {
            Some(s) => s,
            None => {
                return None;
            },
        };
        let customer_id = match req_str(v, "customer_id") {
            Some(s) => s,
            None => {
                return None;
            },
        };
        let key_type = match req_str(v, "key_type") {
            Some(s) => s,
            None => {
                return None;
            },
        };
        let scopes = match req_strlist(v, "scopes") {
            Some(g) => g,
            None => {
                return None;
            },
        };
        let expires_at = match opt_i64(v, "expires_at") {
            Some(o) => o,
            None => {
                return None;
            },
        };
        Some(
            ApiKeyIntrospection { active, api_key_id, customer_id, key_type, scopes, expires_at },
        )
    }
}

/// The field equations a decoded [`ArtifactSummary`] satisfies.
pub open spec fn artifact_summary_matches(g: Json, x: ArtifactSummary) -> bool {
    &&& jstr_field(g, "id"@) == Some(x.id@)
    &&& jstr_field(g, "object_key"@) == Some(x.object_key@)
    &&& jstr_field(g, "platform"@) == Some(x.platform@)
    &&& jstr_field(g, "checksum"@) == Some(x.checksum@)
    &&& jint_field(g, "size"@) == Some(x.size as int)
}

impl ArtifactSummary {
    /// Decode from a parsed document; `None` exactly when no record fits.
    pub fn of_json(v: &JsonValue) -> (r: Option<Self>)
        ensures
            match r {
                Some(x) => artifact_summary_matches(v@, x),
                None => forall|x: ArtifactSummary| !artifact_summary_matches(v@, x),
            },
    {
        let id = match req_str(v, "id") {
            Some(s) => s,
            None => {
                return None;
            },
        };
        let object_key = match req_str(v, "object_key") {
            Some(s) => s,
            None => {
                return None;
            },
        };
        let platform = match req_str(v, "platform") {
            Some(s) => s,
            None => {
                return None;
            },
        };
        let checksum = match req_str(v, "checksum") {
            Some(s) => s,
            None => {
                return None;
            },
        };
        let size = match req_i64(v, "size") {
            Some(n) => n,
            None => {
                return None;
            },
        };
        Some(ArtifactSummary { id, object_key, platform, checksum, size })
    }
}

/// Every element decodes to the record at its index.
pub open spec fn artifacts_rel(items: Seq<Json>, xs: Seq<ArtifactSummary>) -> bool {
    xs.len() == items.len() && forall|i: int|
        0 <= i < items.len() ==> artifact_summary_matches(#[trigger] items[i], xs[i])
}

fn read_artifacts(items: &Vec<JsonValue>) -> (r: Option<Vec<ArtifactSummary>>)
    ensures
        match r {
            Some(xs) => artifacts_rel(jmodel_list(items@), xs@),
            None => forall|xs: Seq<ArtifactSummary>| !artifacts_rel(jmodel_list(items@), xs),
        },
{
    let count = items.len();
    let mut out: Vec<ArtifactSummary> = Vec::new();
    let mut i: usize = 0;
    while i < count
        invariant
            count == items@.len(),
            i <= count,
            out@.len() == i,
            forall|q: int|
                0 <= q < i ==> artifact_summary_matches(
                    #[trigger] jmodel_list(items@)[q],
                    out@[q],
                ),
        decreases count - i,
    {
        proof {
            broadcast use lemma_jmodel_list_len, lemma_jmodel_list_index;

        }
        let item = &items[i];
        match ArtifactSummary::of_json(item) {
            Some(x) => {
                out.push(x);
            },
            None => {
                proof {
                    broadcast use lemma_jmodel_list_len, lemma_jmodel_list_index;

                    let m = jmodel_list(items@);
                    assert forall|xs: Seq<ArtifactSummary>| !artifacts_rel(m, xs) by {
                        if xs.len() == m.len() {
                            assert(forall|x: ArtifactSummary| !artifact_summary_matches(item@, x));
                            assert(m[i as int] == item@);
                            assert(!artifact_summary_matches(m[i as int], xs[i as int]));
                        }
                    }
                }
                return None;
            },
        }
        i = i + 1;
    }
    proof {
        broadcast use lemma_jmodel_list_len, lemma_jmodel_list_index;

    }
    Some(out)
}

/// The field equations a decoded [`ReleaseResponse`] satisfies.
pub open spec fn release_matches(g: Json, x: ReleaseResponse) -> bool {
    &&& jstr_field(g, "id"@) == Some(x.id@)
    &&& jstr_field(g, "product"@) == Some(x.product@)
    &&& jstr_field(g, "version"@) == Some(x.version@)
    &&& jstr_field(g, "status"@) == Some(x.status@)
    &&& jint_field(g, "created_at"@) == Some(x.created_at as int)
    &&& jopt_int_field(g, "published_at"@) == Some(oi64(x.published_at))
    &&& (match jfield(g, "artifacts"@) {
        None => x.artifacts is None,
        Some(Json::Null) => x.artifacts is None,
        Some(Json::Arr(items)) => x.artifacts is Some && artifacts_rel(
            items,
            x.artifacts->0@,
        ),
        Some(_) => false,
    })
}

impl ReleaseResponse {
    /// Decode from a parsed document; `None` exactly when no record fits.
    pub fn of_json(v: &JsonValue) -> (r: Option<Self>)
        ensures
            match r {
                Some(x) => release_matches(v@, x),
                None => forall|x: ReleaseResponse| !release_matches(v@, x),
            },
    {
        let id = match req_str(v, "id") {
            Some(s) => s,
            None => {
                return None;
            },
        };
        let product = match req_str(v, "product") {
            Some(s) => s,
            None => {
                return None;
            },
        };
        let version = match req_str(v, "version") {
            Some(s) => s,
            None => {
                return None;
            },
        };
        let status = match req_str(v, "status") {
            Some(s) => s,
            None => {
                return None;
            },
        };
        let created_at = match req_i64(v, "created_at") {
            Some(n) => n,
            None => {
                return None;
            },
        };
        let published_at = match opt_i64(v, "published_at") {
            Some(o) => o,
            None => {
                return None;
            },
        };
        let artifacts = match get_field(v, "artifacts") {
            None => None,
            Some(f) => match f {
                JsonValue::Null => None,
                JsonValue::Arr(items) => match read_artifacts(items) {
                    Some(xs) => Some(xs),
                    None => {
                        proof {
                            assert forall|x: ReleaseResponse| !release_matches(v@, x) by {
                                if x.artifacts is Some {
                                    assert(!artifacts_rel(jmodel_list(items@), x.artifacts->0@));
                                }
                            }
                        }
                        return None;
                    },
                },
                _ => {
                    return None;
                },
            },
        };
        Some(
            ReleaseResponse { id, product, version, status, created_at, published_at, artifacts },
        )
    }
}

/// Every element decodes to the record at its index.
pub open spec fn releases_rel(items: Seq<Json>, xs: Seq<ReleaseResponse>) -> bool {
    xs.len() == items.len() && forall|i: int|
        0 <= i < items.len() ==> release_matches(#[trigger] items[i], xs[i])
}

fn read_releases(items: &Vec<JsonValue>) -> (r: Option<Vec<ReleaseResponse>>)
    ensures
        match r {
            Some(xs) => releases_rel(jmodel_list(items@), xs@),
            None => forall|xs: Seq<ReleaseResponse>| !releases_rel(jmodel_list(items@), xs),
        },
{
    let count = items.len();
    let mut out: Vec<ReleaseResponse> = Vec::new();
    let mut i: usize = 0;
    while i < count
        invariant
            count == items@.len(),
            i <= count,
            out@.len() == i,
            forall|q: int|
                0 <= q < i ==> release_matches(#[trigger] jmodel_list(items@)[q], out@[q]),
        decreases count - i,
    {
        proof {
            broadcast use lemma_jmodel_list_len, lemma_jmodel_list_index;

        }
        let item = &items[i];
        match ReleaseResponse::of_json(item) {
            Some(x) => {
                out.push(x);
            },
            None => {
                proof {
                    broadcast use lemma_jmodel_list_len, lemma_jmodel_list_index;

                    let m = jmodel_list(items@);
                    assert forall|xs: Seq<ReleaseResponse>| !releases_rel(m, xs) by {
                        if xs.len() == m.len() {
                            assert(forall|x: ReleaseResponse| !release_matches(item@, x));
                            assert(m[i as int] == item@);
                            assert(!release_matches(m[i as int], xs[i as int]));
                        }
                    }
                }
                return None;
            },
        }
        i = i + 1;
    }
    proof {
        broadcast use lemma_jmodel_list_len, lemma_jmodel_list_index;

    }
    Some(out)
}

/// The field equations a decoded [`ReleaseListResponse`] satisfies.
pub open spec fn release_list_matches(g: Json, x: ReleaseListResponse) -> bool {
    &&& (match jfield(g, "releases"@) {
        Some(Json::Arr(items)) => releases_rel(items, x.releases@),
        _ => false,
    })
    &&& jint_field(g, "limit"@) == Some(x.limit as int)
    &&& jint_field(g, "offset"@) == Some(x.offset as int)
}

impl ReleaseListResponse {
    /// Decode from a parsed document; `None` exactly when no record fits.
    pub fn of_json(v: &JsonValue) -> (r: Option<Self>)
        ensures
            match r {
                Some(x) => release_list_matches(v@, x),
                None => forall|x: ReleaseListResponse| !release_list_matches(v@, x),
            },
    {
        let releases = match get_field(v, "releases") {
            Some(f) => match f {
                JsonValue::Arr(items) => match read_releases(items) {
                    Some(xs) => xs,
                    None => {
                        proof {
                            assert forall|x: ReleaseListResponse| !release_list_matches(v@, x)
                                by {
                                assert(!releases_rel(jmodel_list(items@), x.releases@));
                            }
                        }
                        return None;
                    },
                },
                _ => {
                    return None;
                },
            },
            None => {
                return None;
            },
        };
        let limit = match req_i64(v, "limit") {
            Some(n) => n,
            None => {
                return None;
            },
        };
        let offset = match req_i64(v, "offset") {
            Some(n) => n,
            None => {
                return None;
            },
        };
        Some(ReleaseListResponse { releases, limit, offset })
    }
}

/// The field equations a decoded [`ArtifactRegisterResponse`] satisfies.
pub open spec fn artifact_register_resp_matches(g: Json, x: ArtifactRegisterResponse) -> bool {
    &&& jstr_field(g, "id"@) == Some(x.id@)
    &&& jstr_field(g, "release_id"@) == Some(x.release_id@)
    &&& jstr_field(g, "object_key"@) == Some(x.object_key@)
    &&& jstr_field(g, "checksum"@) == Some(x.checksum@)
    &&& jint_field(g, "size"@) == Some(x.size as int)
    &&& jstr_field(g, "platform"@) == Some(x.platform@)
    &&& jint_field(g, "created_at"@) == Some(x.created_at as int)
}

impl ArtifactRegisterResponse {
    /// Decode from a parsed document; `None` exactly when no record fits.
    pub fn of_json(v: &JsonValue) -> (r: Option<Self>)
        ensures
            match r {
                Some(x) => artifact_register_resp_matches(v@, x),
                None => forall|x: ArtifactRegisterResponse|
                    !artifact_register_resp_matches(v@, x),
            },
    {
        let id = match req_str(v, "id") {
            Some(s) => s,
            None => {
                return None;
            },
        };
        let release_id = match req_str(v, "release_id") {
            Some(s) => s,
            None => {
                return None;
            },
        };
        let object_key = match req_str(v, "object_key") {
            Some(s) => s,
            None => {
                return None;
            },
        };
        let checksum = match req_str(v, "checksum") {
            Some(s) => s,
            None => {
                return None;
            },
        };
        let size = match req_i64(v, "size") {
            Some(n) => n,
            None => {
                return None;
            },
        };
        let platform = match req_str(v, "platform") {
            Some(s) => s,
            None => {
                return None;
            },
        };
        let created_at = match req_i64(v, "created_at") {
            Some(n) => n,
            None => {
                return None;
            },
        };
        Some(
            ArtifactRegisterResponse {
                id,
                release_id,
                object_key,
                checksum,
                size,
                platform,
                created_at,
            },
        )
    }
}

/// The field equations a decoded [`ArtifactPresignResponse`] satisfies.
pub open spec fn artifact_presign_resp_matches(g: Json, x: ArtifactPresignResponse) -> bool {
    &&& jstr_field(g, "artifact_id"@) == Some(x.artifact_id@)
    &&& jstr_field(g, "object_key"@) == Some(x.object_key@)
    &&& jstr_field(g, "upload_url"@) == Some(x.upload_url@)
    &&& jint_field(g, "expires_at"@) == Some(x.expires_at as int)
}

impl ArtifactPresignResponse {
    /// Decode from a parsed document; `None` exactly when no record fits.
    pub fn of_json(v: &JsonValue) -> (r: Option<Self>)
        ensures
            match r {
                Some(x) => artifact_presign_resp_matches(v@, x),
                None => forall|x: ArtifactPresignResponse| !artifact_presign_resp_matches(v@, x),
            },
    {
        let artifact_id = match req_str(v, "artifact_id") {
            Some(s) => s,
            None => {
                return None;
            },
        };
        let object_key = match req_str(v, "object_key") {
            Some(s) => s,
            None => {
                return None;
            },
        };
        let upload_url = match req_str(v, "upload_url") {
            Some(s) => s,
            None => {
                return None;
            },
        };
        let expires_at = match req_i64(v, "expires_at") {
            Some(n) => n,
            None => {
                return None;
            },
        };
        Some(ArtifactPresignResponse { artifact_id, object_key, upload_url, expires_at })
    }
}

/// The field equations a decoded [`DownloadTokenResponse`] satisfies.
pub open spec fn download_token_resp_matches(g: Json, x: DownloadTokenResponse) -> bool {
    &&& jstr_field(g, "download_url"@) == Some(x.download_url@)
    &&& jint_field(g, "expires_at"@) == Some(x.expires_at as int)
}

impl DownloadTokenResponse {
    /// Decode from a parsed document; `None` exactly when no record fits.
    pub fn of_json(v: &JsonValue) -> (r: Option<Self>)
        ensures
            match r {
                Some(x) => download_token_resp_matches(v@, x),
                None => forall|x: DownloadTokenResponse| !download_token_resp_matches(v@, x),
            },
    {
        let download_url = match req_str(v, "download_url") {
            Some(s) => s,
            None => {
                return None;
            },
        };
        let expires_at = match req_i64(v, "expires_at") {
            Some(n) => n,
            None => {
                return None;
            },
        };
        Some(DownloadTokenResponse { download_url, expires_at })
    }
}

/// The field equations a decoded [`ErrorDetail`] satisfies.
pub open spec fn error_detail_matches(g: Json, x: ErrorDetail) -> bool {
    &&& jstr_field(g, "code"@) == Some(x.code@)
    &&& jstr_field(g, "message"@) == Some(x.message@)
}

impl ErrorDetail {
    /// Decode from a parsed document; `None` exactly when no record fits.
    pub fn of_json(v: &JsonValue) -> (r: Option<Self>)
        ensures
            match r {
                Some(x) => error_detail_matches(v@, x),
                None => forall|x: ErrorDetail| !error_detail_matches(v@, x),
            },
    {
        let code = match req_str(v, "code") {
            Some(s) => s,
            None => {
                return None;
            },
        };
        let message = match req_str(v, "message") {
            Some(s) => s,
            None => {
                return None;
            },
        };
        Some(ErrorDetail { code, message })
    }
}

/// The field equations a decoded [`ErrorBody`] satisfies: a nested
/// `{ "error": { "code", "message" } }` document.
pub open spec fn error_body_matches(g: Json, x: ErrorBody) -> bool {
    match jfield(g, "error"@) {
        Some(d) => error_detail_matches(d, x.error),
        None => false,
    }
}

impl ErrorBody {
    /// Decode from a parsed document; `None` exactly when no record fits.
    pub fn of_json(v: &JsonValue) -> (r: Option<Self>)
        ensures
            match r {
                Some(x) => error_body_matches(v@, x),
                None => forall|x: ErrorBody| !error_body_matches(v@, x),
            },
    {
        match get_field(v, "error") {
            Some(d) => match ErrorDetail::of_json(d) {
                Some(detail) => Some(ErrorBody { error: detail }),
                None => None,
            },
            None => None,
        }
    }
}

} // verus!
