//! The response classifier: given the status code and whatever was read
//! from the wire, decide between a decoded success value and a structured
//! error — never both, and never a crash on malformed input.

use vstd::prelude::*;
use vstd::string::*;
use crate::error::{Error, TransportError};
use crate::models::ErrorBody;
use crate::json::{Json, JsonValue, jmodel, sp_document, parse_json_text, json_to_string};
use crate::codec::error_body_matches;
use crate::client::DownloadResolution;

verus! {

/// The generic success range: any 2xx status.
pub open spec fn in_success_range(status: u16) -> bool {
    200 <= status < 300
}

/// What the generic error path produces for a non-success response: the
/// numeric status, the parsed error body when the text parses to one, and
/// the raw body text unless it is empty.
pub open spec fn api_error_matches(status: u16, body: Seq<char>, e: Error) -> bool {
    match e {
        Error::Api { status: st, error, body: raw } => {
            &&& st == status
            &&& (match sp_document(body) {
                Some(g) => (match error {
                    Some(eb) => error_body_matches(g, eb),
                    None => forall|eb: ErrorBody| !error_body_matches(g, eb),
                }),
                None => error is None,
            })
            &&& (if body.len() == 0 {
                raw is None
            } else {
                raw matches Some(text) && text@ == body
            })
        },
        _ => false,
    }
}

/// Build the structured error for a non-success response. Parse failure
/// of the error body is tolerated: the structured detail is then absent,
/// never a different error.
pub fn error_from_parts(status: u16, body: String) -> (e: Error)
    ensures
        api_error_matches(status, body@, e),
{
    let parsed: Option<ErrorBody> = match parse_json_text(body.as_str()) {
        Some(v) => {
            let r = ErrorBody::of_json(&v);
            proof {
                assert(sp_document(body@) == Some(jmodel(v)));
            }
            r
        },
        None => None,
    };
    let raw: Option<String> = if body.unicode_len() == 0 {
        None
    } else {
        Some(body)
    };
    Error::Api { status, error: parsed, body: raw }
}

/// Classify a response whose success carries a JSON body: in the 2xx
/// range the body must parse, and a parse failure is a transport-level
/// decode error carrying the raw text; outside it the generic error path
/// applies.
pub fn classify_document(status: u16, body: String) -> (r: Result<(JsonValue, String), Error>)
    ensures
        in_success_range(status) ==> (match r {
            Ok((v, raw)) => sp_document(body@) == Some(jmodel(v)) && raw@ == body@,
            Err(e) => sp_document(body@) is None && (e matches Error::Transport(
                TransportError::Decode(text),
            ) && text@ == body@),
        }),
        !in_success_range(status) ==> (r matches Err(e) && api_error_matches(status, body@, e)),
{
    if 200 <= status && status < 300 {
        match parse_json_text(body.as_str()) {
            Some(v) => Ok((v, body)),
            None => Err(Error::Transport(TransportError::Decode(body))),
        }
    } else {
        Err(error_from_parts(status, body))
    }
}

/// Classify a response whose success has no body: only the expected
/// status succeeds, every other goes down the generic error path.
pub fn classify_empty(status: u16, expected: u16, body: String) -> (r: Result<(), Error>)
    ensures
        status == expected ==> r is Ok,
        status != expected ==> (r matches Err(e) && api_error_matches(status, body@, e)),
{
    if status == expected {
        Ok(())
    } else {
        Err(error_from_parts(status, body))
    }
}

/// Classify the download-token resolution: 302 with a `Location` header
/// resolves to that location; 302 without one is the distinct
/// protocol-contract error; anything else goes down the generic error
/// path.
pub fn classify_redirect(status: u16, location: Option<String>, body: String) -> (r: Result<
    DownloadResolution,
    Error,
>)
    ensures
        status == 302 ==> (match location {
            Some(l) => r matches Ok(d) && d.location == l,
            None => r matches Err(Error::MissingLocationHeader),
        }),
        status != 302 ==> (r matches Err(e) && api_error_matches(status, body@, e)),
{
    if status == 302 {
        match location {
            Some(l) => Ok(DownloadResolution { location: l }),
            None => Err(Error::MissingLocationHeader),
        }
    } else {
        Err(error_from_parts(status, body))
    }
}

/// Classify a presigned upload response: any 2xx succeeds, the rest go
/// down the generic error path.
pub fn classify_upload(status: u16, body: String) -> (r: Result<(), Error>)
    ensures
        in_success_range(status) ==> r is Ok,
        !in_success_range(status) ==> (r matches Err(e) && api_error_matches(status, body@, e)),
{
    if 200 <= status && status < 300 {
        Ok(())
    } else {
        Err(error_from_parts(status, body))
    }
}

} // verus!
