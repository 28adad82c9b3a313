//! The error taxonomy of the client.
//!
//! Configuration errors never reach the network; transport errors cover
//! network failures and undecodable success bodies; API errors carry the
//! status and whatever structured detail the server supplied; the missing
//! redirect header is its own case because it signals a broken server
//! contract rather than a business failure.

use vstd::prelude::*;
use vstd::string::*;
use crate::models::ErrorBody;
use crate::text::{dec_of, u16_to_dec};

verus! {

/// A transport-level failure: the request never completed, or its body
/// could not be decoded on an otherwise successful status.
#[derive(Debug)]
pub enum TransportError {
    /// A network or I/O failure reported by the HTTP agent.
    Network(ureq::Error),
    /// A success status whose body did not decode as the endpoint's
    /// declared response shape; carries the raw body text.
    Decode(String),
}

/// Any failure a call can return.
#[derive(Debug)]
pub enum Error {
    /// The response status fell outside the endpoint's success set.
    Api { status: u16, error: Option<ErrorBody>, body: Option<String> },
    /// The call failed before a classifiable response was available.
    Transport(TransportError),
    /// The base URL was rejected at construction time; carries the
    /// original input.
    InvalidBaseUrl(String),
    /// A redirect response lacked its `Location` header.
    MissingLocationHeader,
}

impl Error {
    /// The HTTP status, for API errors.
    pub fn status(&self) -> (r: Option<u16>)
        ensures
            r == (match *self {
                Error::Api { status, .. } => Some(status),
                _ => None::<u16>,
            }),
    {
        match self {
            Error::Api { status, .. } => Some(*status),
            _ => None,
        }
    }

    /// The structured error body, for API errors that carried one.
    pub fn api_error(&self) -> (r: Option<&ErrorBody>)
        ensures
            match *self {
                Error::Api { error: Some(ref e), .. } => r is Some && r->0 == e,
                _ => r is None,
            },
    {
        match self {
            Error::Api { error, .. } => error.as_ref(),
            _ => None,
        }
    }

    /// The raw response body, for API errors whose body was not empty.
    pub fn body(&self) -> (r: Option<&String>)
        ensures
            match *self {
                Error::Api { body: Some(ref b), .. } => r is Some && r->0 == b,
                _ => r is None,
            },
    {
        match self {
            Error::Api { body, .. } => body.as_ref(),
            _ => None,
        }
    }

    /// A one-line description of the error. For a network failure the
    /// line carries the transport error's own description; that text
    /// comes from outside, so the contract fixes everything but it.
    pub fn describe(&self) -> (r: String)
        ensures
            exists|transport_detail: Seq<char>| r@ == describe_text(*self, transport_detail),
    {
        match self {
            Error::Api { status, error: Some(detail), .. } => {
                let r = "api error (status ".to_owned().concat(u16_to_dec(*status).as_str())
                    .concat("): ").concat(detail.error.code.as_str()).concat(" (").concat(
                    detail.error.message.as_str(),
                ).concat(")");
                proof {
                    assert(r@ == describe_text(*self, Seq::<char>::empty()));
                }
                r
            },
            Error::Api { status, .. } => {
                let r = "api error (status ".to_owned().concat(u16_to_dec(*status).as_str())
                    .concat(")");
                proof {
                    assert(r@ == describe_text(*self, Seq::<char>::empty()));
                }
                r
            },
            Error::Transport(TransportError::Network(e)) => {
                let message = crate::transport::transport_error_text(e);
                let r = "transport error: ".to_owned().concat(message.as_str());
                proof {
                    assert(r@ == describe_text(*self, message@));
                }
                r
            },
            Error::Transport(TransportError::Decode(_)) => {
                let r = "response decode error".to_owned();
                proof {
                    assert(r@ == describe_text(*self, Seq::<char>::empty()));
                }
                r
            },
            Error::InvalidBaseUrl(url) => {
                let r = "invalid base url: ".to_owned().concat(url.as_str());
                proof {
                    assert(r@ == describe_text(*self, Seq::<char>::empty()));
                }
                r
            },
            Error::MissingLocationHeader => {
                let r = "missing Location header in redirect response".to_owned();
                proof {
                    assert(r@ == describe_text(*self, Seq::<char>::empty()));
                }
                r
            },
        }
    }
}

/// The description [`Error::describe`] returns for each error. The
/// `transport_detail` parameter stands for the network error's own text;
/// every other variant's description ignores it and is fixed exactly.
pub open spec fn describe_text(e: Error, transport_detail: Seq<char>) -> Seq<char> {
    match e {
        Error::Api { status, error, .. } => match error {
            Some(detail) => "api error (status "@ + dec_of(status as nat) + "): "@
                + detail.error.code@ + " ("@ + detail.error.message@ + ")"@,
            None => "api error (status "@ + dec_of(status as nat) + ")"@,
        },
        Error::Transport(TransportError::Network(_)) => "transport error: "@ + transport_detail,
        Error::Transport(TransportError::Decode(_)) => "response decode error"@,
        Error::InvalidBaseUrl(url) => "invalid base url: "@ + url@,
        Error::MissingLocationHeader => "missing Location header in redirect response"@,
    }
}

} // verus!
