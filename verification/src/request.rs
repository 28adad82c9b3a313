//! The outbound request model: a fully-addressed, fully-headered request
//! as plain data, assembled and pinned down by verified code before it is
//! handed to the transport.

use vstd::prelude::*;
use vstd::string::*;
use crate::text::{
    enc_component, encode_component, dec_of_int, bool_lit, push_char, i64_to_dec, i32_to_dec,
    bool_str,
};

verus! {

/// The HTTP method of an endpoint.
#[derive(Clone, Copy, Debug, PartialEq, Eq, Structural)]
pub enum Method {
    Get,
    Post,
    Put,
    Patch,
    Delete,
}

/// The wire name of a method.
pub open spec fn method_text(m: Method) -> Seq<char> {
    match m {
        Method::Get => "GET"@,
        Method::Post => "POST"@,
        Method::Put => "PUT"@,
        Method::Patch => "PATCH"@,
        Method::Delete => "DELETE"@,
    }
}

impl Method {
    /// The wire name of the method.
    pub fn as_str(&self) -> (s: &'static str)
        ensures
            s@ == method_text(*self),
    {
        match self {
            Method::Get => "GET",
            Method::Post => "POST",
            Method::Put => "PUT",
            Method::Patch => "PATCH",
            Method::Delete => "DELETE",
        }
    }
}

/// Every method name this client uses is one the transport accepts.
pub broadcast proof fn lemma_method_name_accepted(m: Method)
    ensures
        crate::transport::http_method_name(#[trigger] method_text(m)),
{
}

/// An outbound request as plain data.
#[derive(Clone, Debug, PartialEq, Eq)]
pub struct PreparedRequest {
    pub method: Method,
    /// The full target, query string included.
    pub url: String,
    /// Header pairs in the order they are applied.
    pub headers: Vec<(String, String)>,
    /// The serialized JSON body; `None` sends an empty body.
    pub body: Option<String>,
}

/// The mathematical content of a [`PreparedRequest`].
pub struct RequestView {
    pub method: Method,
    pub url: Seq<char>,
    pub headers: Seq<(Seq<char>, Seq<char>)>,
    pub body: Option<Seq<char>>,
}

/// The string pair list a `Vec<(String, String)>` stands for.
pub open spec fn pairs_view(s: Seq<(String, String)>) -> Seq<(Seq<char>, Seq<char>)> {
    Seq::new(s.len(), |i: int| (s[i].0@, s[i].1@))
}

impl View for PreparedRequest {
    type V = RequestView;

    open spec fn view(&self) -> RequestView {
        RequestView {
            method: self.method,
            url: self.url@,
            headers: pairs_view(self.headers@),
            body: self.body.deep_view(),
        }
    }
}

/// `p` with every leading `'/'` removed.
pub open spec fn strip_leading_slashes(p: Seq<char>) -> Seq<char>
    decreases p.len(),
{
    if p.len() > 0 && p[0] == '/' {
        strip_leading_slashes(p.subrange(1, p.len() as int))
    } else {
        p
    }
}

/// The base joined with the path by exactly one `'/'` separator.
pub open spec fn joined_url(base: Seq<char>, path: Seq<char>) -> Seq<char> {
    base + seq!['/'] + strip_leading_slashes(path)
}

proof fn lemma_strip_leading_advance(p: Seq<char>, i: int)
    requires
        0 <= i < p.len(),
        p[i] == '/',
        forall|k: int| 0 <= k < i ==> p[k] == '/',
    ensures
        strip_leading_slashes(p.subrange(i, p.len() as int)) == strip_leading_slashes(
            p.subrange(i + 1, p.len() as int),
        ),
{
    let tail = p.subrange(i, p.len() as int);
    assert(tail[0] == '/');
    assert(tail.subrange(1, tail.len() as int) =~= p.subrange(i + 1, p.len() as int));
}

/// Join the stored base URL with an endpoint path.
pub fn join_url(base: &String, path: &str) -> (r: String)
    ensures
        r@ == joined_url(base@, path@),
{
    let len = path.unicode_len();
    let mut i: usize = 0;
    proof {
        assert(path@.subrange(0, len as int) =~= path@);
    }
    while i < len && path.get_char(i) == '/'
        invariant
            len == path@.len(),
            i <= len,
            strip_leading_slashes(path@) == strip_leading_slashes(
                path@.subrange(i as int, len as int),
            ),
            forall|k: int| 0 <= k < i ==> path@[k] == '/',
        decreases len - i,
    {
        proof {
            lemma_strip_leading_advance(path@, i as int);
        }
        i = i + 1;
    }
    proof {
        if i < len {
            assert(path@.subrange(i as int, len as int)[0] != '/');
        } else {
            assert(path@.subrange(i as int, len as int).len() == 0);
        }
        assert(strip_leading_slashes(path@) == path@.subrange(i as int, len as int));
    }
    let rest = path.substring_char(i, len);
    let r = base.clone().concat("/").concat(rest);
    proof {
        reveal_strlit("/");
        assert(r@ =~= joined_url(base@, path@));
    }
    r
}

/// The `key=value` text of one query pair, both sides percent-encoded.
pub open spec fn query_pair_text(p: (Seq<char>, Seq<char>)) -> Seq<char> {
    enc_component(p.0) + seq!['='] + enc_component(p.1)
}

/// The `&`-joined text of a query pair list.
pub open spec fn query_text(pairs: Seq<(Seq<char>, Seq<char>)>) -> Seq<char>
    decreases pairs.len(),
{
    if pairs.len() == 0 {
        Seq::empty()
    } else if pairs.len() == 1 {
        query_pair_text(pairs[0])
    } else {
        query_pair_text(pairs[0]) + seq!['&'] + query_text(pairs.subrange(1, pairs.len() as int))
    }
}

/// The target with its query string: the pairs after `'?'`, or the bare
/// target when there are none.
pub open spec fn url_with_query(u: Seq<char>, pairs: Seq<(Seq<char>, Seq<char>)>) -> Seq<char> {
    if pairs.len() == 0 {
        u
    } else {
        u + seq!['?'] + query_text(pairs)
    }
}

proof fn lemma_query_text_snoc(pairs: Seq<(Seq<char>, Seq<char>)>, p: (Seq<char>, Seq<char>))
    ensures
        pairs.len() == 0 ==> query_text(pairs.push(p)) == query_pair_text(p),
        pairs.len() > 0 ==> query_text(pairs.push(p)) == query_text(pairs) + seq!['&']
            + query_pair_text(p),
    decreases pairs.len(),
{
    let whole = pairs.push(p);
    if pairs.len() == 0 {
        assert(whole[0] == p);
        assert(query_text(whole) == query_pair_text(p));
    } else {
        let tail = pairs.subrange(1, pairs.len() as int);
        assert(whole.subrange(1, whole.len() as int) =~= tail.push(p));
        lemma_query_text_snoc(tail, p);
        if pairs.len() == 1 {
            assert(tail.len() == 0);
            assert(query_text(whole) =~= query_text(pairs) + seq!['&'] + query_pair_text(p));
        } else {
            assert(query_text(whole) =~= query_text(pairs) + seq!['&'] + query_pair_text(p));
        }
    }
}

/// Append the query string for `pairs` to a target.
pub fn append_query(url: String, pairs: &Vec<(String, String)>) -> (r: String)
    ensures
        r@ == url_with_query(url@, pairs_view(pairs@)),
{
    let ghost url0 = url@;
    if pairs.len() == 0 {
        proof {
            assert(pairs_view(pairs@).len() == 0);
        }
        return url;
    }
    let mut out = url;
    push_char(&mut out, '?');
    let count = pairs.len();
    let mut i: usize = 0;
    while i < count
        invariant
            count == pairs@.len(),
            count > 0,
            i <= count,
            out@ == url0 + seq!['?'] + query_text(pairs_view(pairs@).subrange(0, i as int)),
        decreases count - i,
    {
        if i > 0 {
            push_char(&mut out, '&');
        }
        let enc_key = encode_component(pairs[i].0.as_str());
        out.append(enc_key.as_str());
        push_char(&mut out, '=');
        let enc_val = encode_component(pairs[i].1.as_str());
        out.append(enc_val.as_str());
        proof {
            let dv = pairs_view(pairs@);
            assert(dv[i as int] == (pairs@[i as int].0@, pairs@[i as int].1@));
            assert(dv.subrange(0, i + 1 as int) =~= dv.subrange(0, i as int).push(dv[i as int]));
            lemma_query_text_snoc(dv.subrange(0, i as int), dv[i as int]);
            assert(out@ =~= url0 + seq!['?'] + query_text(dv.subrange(0, i + 1 as int)));
        }
        i = i + 1;
    }
    proof {
        assert(pairs_view(pairs@).subrange(0, count as int) =~= pairs_view(pairs@));
        assert(out@ =~= url_with_query(url0, pairs_view(pairs@)));
    }
    out
}

/// The query pair an optional string filter contributes: nothing when the
/// field is absent, one pair with the exact string when present.
pub open spec fn opt_pair_str(k: Seq<char>, v: Option<String>) -> Seq<(Seq<char>, Seq<char>)> {
    match v {
        Some(s) => seq![(k, s@)],
        None => Seq::empty(),
    }
}

/// As [`opt_pair_str`], for a 64-bit integer filter rendered in decimal.
pub open spec fn opt_pair_i64(k: Seq<char>, v: Option<i64>) -> Seq<(Seq<char>, Seq<char>)> {
    match v {
        Some(n) => seq![(k, dec_of_int(n as int))],
        None => Seq::empty(),
    }
}

/// As [`opt_pair_str`], for a 32-bit integer filter rendered in decimal.
pub open spec fn opt_pair_i32(k: Seq<char>, v: Option<i32>) -> Seq<(Seq<char>, Seq<char>)> {
    match v {
        Some(n) => seq![(k, dec_of_int(n as int))],
        None => Seq::empty(),
    }
}

/// As [`opt_pair_str`], for a boolean filter rendered `true`/`false`.
pub open spec fn opt_pair_bool(k: Seq<char>, v: Option<bool>) -> Seq<(Seq<char>, Seq<char>)> {
    match v {
        Some(b) => seq![(k, bool_lit(b))],
        None => Seq::empty(),
    }
}

/// Append one pair.
pub fn add_pair(pairs: &mut Vec<(String, String)>, k: &str, val: String)
    ensures
        pairs_view(final(pairs)@) == pairs_view(old(pairs)@).push((k@, val@)),
{
    let key = k.to_owned();
    let ghost kv = key@;
    let ghost vv = val@;
    pairs.push((key, val));
    proof {
        assert(pairs_view(pairs@) =~= pairs_view(old(pairs)@).push((kv, vv)));
    }
}

/// Append the pair for an optional string filter.
pub fn add_opt_str(pairs: &mut Vec<(String, String)>, k: &str, v: &Option<String>)
    ensures
        pairs_view(final(pairs)@) == pairs_view(old(pairs)@) + opt_pair_str(k@, *v),
{
    match v {
        Some(s) => {
            add_pair(pairs, k, s.clone());
            proof {
                assert(pairs_view(pairs@) =~= pairs_view(old(pairs)@) + opt_pair_str(k@, *v));
            }
        },
        None => {
            proof {
                assert(pairs_view(pairs@) =~= pairs_view(old(pairs)@) + opt_pair_str(k@, *v));
            }
        },
    }
}

/// Append the pair for an optional 64-bit integer filter.
pub fn add_opt_i64(pairs: &mut Vec<(String, String)>, k: &str, v: &Option<i64>)
    ensures
        pairs_view(final(pairs)@) == pairs_view(old(pairs)@) + opt_pair_i64(k@, *v),
{
    match v {
        Some(n) => {
            add_pair(pairs, k, i64_to_dec(*n));
            proof {
                assert(pairs_view(pairs@) =~= pairs_view(old(pairs)@) + opt_pair_i64(k@, *v));
            }
        },
        None => {
            proof {
                assert(pairs_view(pairs@) =~= pairs_view(old(pairs)@) + opt_pair_i64(k@, *v));
            }
        },
    }
}

/// Append the pair for an optional 32-bit integer filter.
pub fn add_opt_i32(pairs: &mut Vec<(String, String)>, k: &str, v: &Option<i32>)
    ensures
        pairs_view(final(pairs)@) == pairs_view(old(pairs)@) + opt_pair_i32(k@, *v),
{
    match v {
        Some(n) => {
            add_pair(pairs, k, i32_to_dec(*n));
            proof {
                assert(pairs_view(pairs@) =~= pairs_view(old(pairs)@) + opt_pair_i32(k@, *v));
            }
        },
        None => {
            proof {
                assert(pairs_view(pairs@) =~= pairs_view(old(pairs)@) + opt_pair_i32(k@, *v));
            }
        },
    }
}

/// Append the pair for an optional boolean filter.
pub fn add_opt_bool(pairs: &mut Vec<(String, String)>, k: &str, v: &Option<bool>)
    ensures
        pairs_view(final(pairs)@) == pairs_view(old(pairs)@) + opt_pair_bool(k@, *v),
{
    match v {
        Some(b) => {
            add_pair(pairs, k, bool_str(*b));
            proof {
                assert(pairs_view(pairs@) =~= pairs_view(old(pairs)@) + opt_pair_bool(k@, *v));
            }
        },
        None => {
            proof {
                assert(pairs_view(pairs@) =~= pairs_view(old(pairs)@) + opt_pair_bool(k@, *v));
            }
        },
    }
}

} // verus!
