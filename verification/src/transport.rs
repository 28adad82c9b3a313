//! The trusted boundary around the HTTP stack.
//!
//! Requests are assembled as plain data by verified code and handed to the
//! `http` request builder one call at a time; the `ureq` agent executes the
//! finished request. Each item below wraps exactly one outside call, and
//! its contract states only what that call's source shows.

use vstd::prelude::*;
use ureq::Error as UreqError;

verus! {

#[verifier::external_type_specification]
#[verifier::external_body]
pub struct ExUreqError(UreqError);

#[verifier::external_type_specification]
#[verifier::external_body]
pub struct ExAgent(ureq::Agent);

#[verifier::external_type_specification]
#[verifier::external_body]
pub struct ExRequestBuilder(ureq::http::request::Builder);

#[verifier::external_type_specification]
#[verifier::external_body]
#[verifier::reject_recursive_types(T)]
pub struct ExRequest<T>(ureq::http::Request<T>);

#[verifier::external_type_specification]
#[verifier::external_body]
#[verifier::reject_recursive_types(T)]
pub struct ExResponse<T>(ureq::http::Response<T>);

#[verifier::external_type_specification]
#[verifier::external_body]
pub struct ExBody(ureq::Body);

/// Whether the builder still carries a well-formed request head. The
/// `http` builder swallows errors until `body()` is called; this name
/// stands for its inner `Result` being `Ok`.
pub uninterp spec fn builder_ok(b: ureq::http::request::Builder) -> bool;

/// The method recorded in the builder's request head.
pub uninterp spec fn builder_method(b: ureq::http::request::Builder) -> Seq<char>;

/// The header pairs recorded in the builder's request head, in the order
/// they were appended. The header map groups repeated names on the wire;
/// the appended order and the wire order coincide for the distinct names
/// this crate sends.
pub uninterp spec fn builder_headers(b: ureq::http::request::Builder) -> Seq<
    (Seq<char>, Seq<char>),
>;

/// The target recorded in the builder's request head: the text of the
/// `http::Uri` that `Uri::try_from` parses from the given string. One
/// input text always parses to one target, so this is a function of the
/// text alone; nothing more is claimed of it.
pub uninterp spec fn target_of(s: Seq<char>) -> Seq<char>;

/// The target recorded in the builder's request head.
pub uninterp spec fn builder_target(b: ureq::http::request::Builder) -> Seq<char>;

/// The method recorded in a finished request.
pub uninterp spec fn request_method(r: ureq::http::Request<String>) -> Seq<char>;

/// The target recorded in a finished request.
pub uninterp spec fn request_target(r: ureq::http::Request<String>) -> Seq<char>;

/// The header pairs recorded in a finished request, in the order they
/// were appended.
pub uninterp spec fn request_headers(r: ureq::http::Request<String>) -> Seq<
    (Seq<char>, Seq<char>),
>;

/// The body text a finished request carries.
pub uninterp spec fn request_body_text(r: ureq::http::Request<String>) -> Seq<char>;

/// Header pairs the transport records verbatim: plain token names,
/// control-free values, and fewer than the header map's capacity.
pub open spec fn valid_header_pairs(hs: Seq<(Seq<char>, Seq<char>)>) -> bool {
    hs.len() < 4096 && forall|i: int|
        0 <= i < hs.len() ==> header_name_text(#[trigger] hs[i].0) && header_value_text(hs[i].1)
}

/// The method names this client sends; `http::Method::from_bytes` accepts
/// each of them.
pub open spec fn http_method_name(s: Seq<char>) -> bool {
    s == "GET"@ || s == "POST"@ || s == "PUT"@ || s == "PATCH"@ || s == "DELETE"@
}

/// A lowercase header name token; `http::HeaderName` accepts exactly such
/// names unchanged, so the recorded name equals the given one.
pub open spec fn header_name_text(s: Seq<char>) -> bool {
    s.len() > 0 && forall|i: int|
        0 <= i < s.len() ==> (('a' <= s[i] && s[i] <= 'z') || ('0' <= s[i] && s[i] <= '9') || s[i]
            == '-')
}

/// Text whose UTF-8 bytes `http::HeaderValue` accepts: everything except
/// the control characters, tab aside.
pub open spec fn header_value_text(s: Seq<char>) -> bool {
    forall|i: int|
        0 <= i < s.len() ==> (s[i] == '\t' || (32 <= s[i] as int && s[i] as int != 127))
}

/// Relies on `http::Request::builder`: a fresh builder, well-formed, with
/// no headers recorded.
#[verifier::external_body]
pub(crate) fn new_request_builder() -> (b: ureq::http::request::Builder)
    ensures
        builder_ok(b),
        builder_headers(b) == Seq::<(Seq<char>, Seq<char>)>::empty(),
{
    ureq::http::Request::builder()
}

/// Relies on `http::request::Builder::method`: records the method; the
/// names in `http_method_name` are all accepted.
#[verifier::external_body]
pub(crate) fn builder_set_method(b: ureq::http::request::Builder, m: &str) -> (r: ureq::http::request::Builder)
    requires
        http_method_name(m@),
    ensures
        !builder_ok(b) ==> !builder_ok(r),
        builder_ok(b) ==> builder_ok(r) && builder_method(r) == m@ && builder_headers(r)
            == builder_headers(b) && builder_target(r) == builder_target(b),
{
    b.method(m)
}

/// Relies on `http::request::Builder::uri`: records the target parsed
/// from the text if it parses, else poisons the builder. Which texts
/// parse is left unstated; a failure surfaces when the request is
/// finished.
#[verifier::external_body]
pub(crate) fn builder_set_uri(b: ureq::http::request::Builder, u: &str) -> (r: ureq::http::request::Builder)
    ensures
        !builder_ok(b) ==> !builder_ok(r),
        builder_ok(r) ==> builder_ok(b) && builder_method(r) == builder_method(b)
            && builder_headers(r) == builder_headers(b) && builder_target(r) == target_of(u@),
{
    b.uri(u)
}

/// Relies on `http::request::Builder::header`: appends the pair when the
/// name is a plain lowercase token and the value has no control
/// characters; a value with control characters poisons the builder. For
/// names outside `header_name_text` nothing is claimed, and the append
/// is only promised below the header map's fixed capacity.
#[verifier::external_body]
pub(crate) fn builder_add_header(
    b: ureq::http::request::Builder,
    k: &str,
    v: &str,
) -> (r: ureq::http::request::Builder)
    ensures
        !builder_ok(b) ==> !builder_ok(r),
        builder_ok(b) && builder_ok(r) ==> builder_method(r) == builder_method(b)
            && builder_target(r) == builder_target(b),
        builder_ok(b) && header_name_text(k@) && header_value_text(v@) && builder_headers(
            b,
        ).len() < 4096 ==> builder_ok(r) && builder_headers(r) == builder_headers(b).push(
            (k@, v@),
        ),
        builder_ok(b) && header_name_text(k@) && !header_value_text(v@) ==> !builder_ok(r),
{
    b.header(k, v)
}

/// Relies on `http::request::Builder::body`: finishes the request,
/// moving the recorded head verbatim and storing the given body; fails
/// exactly when an earlier builder step failed.
#[verifier::external_body]
pub(crate) fn finish_request(b: ureq::http::request::Builder, body: String) -> (r: Result<
    ureq::http::Request<String>,
    ureq::Error,
>)
    ensures
        r is Ok <==> builder_ok(b),
        r matches Ok(q) ==> request_method(q) == builder_method(b) && request_target(q)
            == builder_target(b) && request_headers(q) == builder_headers(b) && request_body_text(
            q,
        ) == body@,
{
    b.body(body).map_err(ureq::Error::Http)
}

/// Relies on `http::request::Builder::body`: as `finish_request`, for a
/// raw byte body.
#[verifier::external_body]
pub(crate) fn finish_request_bytes(b: ureq::http::request::Builder, body: Vec<u8>) -> (r: Result<
    ureq::http::Request<Vec<u8>>,
    ureq::Error,
>)
    ensures
        r is Ok <==> builder_ok(b),
{
    b.body(body).map_err(ureq::Error::Http)
}

/// Relies on `ureq::Agent::run`: sends the request — the method, target,
/// headers and body it records — over the network. Nothing can be
/// promised of the outcome; the caller classifies whatever comes back.
#[verifier::external_body]
pub(crate) fn run_request(agent: &ureq::Agent, req: ureq::http::Request<String>) -> (r: Result<
    ureq::http::Response<ureq::Body>,
    ureq::Error,
>) {
    agent.run(req)
}

/// Relies on `ureq::Agent::run`: as `run_request`, for a raw byte body.
#[verifier::external_body]
pub(crate) fn run_request_bytes(agent: &ureq::Agent, req: ureq::http::Request<Vec<u8>>) -> (r:
    Result<ureq::http::Response<ureq::Body>, ureq::Error>) {
    agent.run(req)
}

/// Relies on `http::Response::status` and `StatusCode::as_u16`: the
/// numeric status of the response.
#[verifier::external_body]
pub(crate) fn response_status(r: &ureq::http::Response<ureq::Body>) -> u16 {
    r.status().as_u16()
}

/// Relies on `http::Response::headers` and `HeaderMap::get`: the value of
/// the `Location` header, when present and readable as text.
#[verifier::external_body]
pub(crate) fn response_location(r: &ureq::http::Response<ureq::Body>) -> Option<String> {
    r.headers().get("location").and_then(|v| v.to_str().ok()).map(|v| v.to_string())
}

/// Relies on `ureq::Body::read_to_string`: reads the whole response body
/// as text (10 MB default limit).
#[verifier::external_body]
pub(crate) fn read_body_text(r: ureq::http::Response<ureq::Body>) -> (t: Result<
    String,
    ureq::Error,
>) {
    r.into_body().read_to_string()
}

/// Relies on `ureq::Agent::config_builder`, `http_status_as_error` and
/// `build`: a stock agent that hands every status back as a response.
#[verifier::external_body]
pub(crate) fn make_agent() -> ureq::Agent {
    ureq::Agent::config_builder().http_status_as_error(false).build().into()
}

/// Relies on the same configuration chain as `make_agent`, with
/// `timeout_global` set.
#[verifier::external_body]
pub(crate) fn make_agent_with_timeout(timeout: core::time::Duration) -> ureq::Agent {
    ureq::Agent::config_builder().http_status_as_error(false).timeout_global(
        Some(timeout),
    ).build().into()
}

/// Relies on `ureq::Error`'s `Display`, through `ToString::to_string`:
/// the transport error's own one-line description. Outside text; nothing
/// is claimed of its content.
#[verifier::external_body]
pub(crate) fn transport_error_text(e: &UreqError) -> String {
    e.to_string()
}

/// Relies on `ureq::Agent::clone`: the agent is a handle of shared
/// configuration and pool; its clone is the same value.
pub assume_specification[ <ureq::Agent as Clone>::clone ](a: &ureq::Agent) -> (r: ureq::Agent)
    ensures
        r == *a,
;

} // verus!
