//! Errors produced by the speed test engine.
//!
//! Network failures never panic: they are surfaced through this type and
//! turned into user-facing messages by [`EngineError::message`].

use vstd::prelude::*;

use crate::text::{chars_of, concat, string_of};

verus! {

/// The failure modes of the engine that carry plain values.
///
/// Transport errors of the HTTP client and failed worker joins are
/// wrapped by the networking layer, which owns those types.
#[derive(Debug, Clone, PartialEq, Eq)]
pub enum EngineError {
    /// A server definition contained an unusable URL.
    InvalidUrl(String),
    /// A server response was malformed or failed validation.
    InvalidResponse(String),
    /// Server discovery returned no reachable servers.
    NoServers,
    /// A measurement phase produced no samples (e.g. every ping failed).
    NoSamples {
        /// Why the last sample attempt failed (TLS error, timeout, HTTP
        /// status, …) so dead servers are diagnosable from the UI.
        reason: String,
    },
    /// The test was cancelled by the user.
    Cancelled,
}

/// The human-readable text of an engine error.
pub open spec fn engine_error_text(e: EngineError) -> Seq<char> {
    match e {
        EngineError::InvalidUrl(url) => "invalid server URL: "@ + url@,
        EngineError::InvalidResponse(what) => "invalid server response: "@ + what@,
        EngineError::NoServers =>
            "no reachable speed test servers (check your connection or configured servers)"@,
        EngineError::NoSamples { reason } => "no measurement samples were collected: "@ + reason@,
        EngineError::Cancelled => "test cancelled"@,
    }
}

impl EngineError {
    /// Returns `true` when this error represents a user-initiated
    /// cancellation rather than a genuine failure.
    pub fn is_cancelled(&self) -> (r: bool)
        ensures
            r == (*self is Cancelled),
    {
        match self {
            EngineError::Cancelled => true,
            _ => false,
        }
    }

    /// The error of a latency phase in which no sample succeeded, carrying
    /// why the last attempt failed (or that none was made).
    pub fn no_samples(last_failure: Option<String>) -> (r: EngineError)
        ensures
            r == (EngineError::NoSamples {
                reason: match last_failure {
                    Some(reason) => reason,
                    None => r->reason,
                },
            }),
            last_failure is None ==> r->reason@ == "no requests were attempted"@,
    {
        match last_failure {
            Some(reason) => EngineError::NoSamples { reason },
            None => EngineError::NoSamples {
                reason: string_of(&chars_of("no requests were attempted")),
            },
        }
    }

    /// The human-readable description of this error.
    pub fn message(&self) -> (r: String)
        ensures
            r@ == engine_error_text(*self),
    {
        match self {
            EngineError::InvalidUrl(url) => {
                let t = concat(&chars_of("invalid server URL: "), &chars_of(url.as_str()));
                string_of(&t)
            },
            EngineError::InvalidResponse(what) => {
                let t = concat(&chars_of("invalid server response: "), &chars_of(what.as_str()));
                string_of(&t)
            },
            EngineError::NoServers => string_of(
                &chars_of(
                    "no reachable speed test servers (check your connection or configured servers)",
                ),
            ),
            EngineError::NoSamples { reason } => {
                let t = concat(
                    &chars_of("no measurement samples were collected: "),
                    &chars_of(reason.as_str()),
                );
                string_of(&t)
            },
            EngineError::Cancelled => string_of(&chars_of("test cancelled")),
        }
    }
}

} // verus!
