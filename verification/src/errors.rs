//! Structured, tagged errors for every failure the library reports: I/O,
//! HTTP/transport, serialization, unknown backend or model, boot failure,
//! and an internal category for invariant violations.

use vstd::prelude::*;

verus! {

/// Every failure of the library, as a tagged value.
///
/// Transport and serialization failures carry the peer's message verbatim;
/// boot failures name the backend and a human-readable reason.
#[derive(Debug, Clone)]
pub enum Error {
    /// Process or filesystem failure.
    Io(String),
    /// HTTP/transport failure, with the status code where one was received.
    Http { status_code: Option<u16>, status_msg: String },
    /// Malformed JSON received from a backend service.
    SerdeJson(String),
    /// No backend is registered under the given name.
    BackendNotFound(String),
    /// A backend failed to start; names the backend and the reason.
    BackendBoot { reason: String, backend: String },
    /// The named model does not exist within the named backend.
    ModelNotFound { model: String, backend: String },
    /// An internal invariant was violated.
    Internal(String),
    /// A failure that fits no other kind.
    Unknown,
}

/// The presentation form of an [`Error`]: the tag plus its message parts,
/// so a presentation layer can render failures without string-parsing.
#[derive(Debug, Clone)]
pub enum ErrorKind {
    Io(String),
    Http { status_code: u16, status_msg: String },
    BackendNotFound(String),
    BackendBoot { reason: String, backend: String },
    ModelNotFound { model: String, backend: String },
    Internal(String),
}

/// How an [`Error`] is folded into its presentation [`ErrorKind`]:
/// serialization failures are reported under the I/O kind, and the
/// catch-all kind is reported as an internal error.
pub open spec fn kind_matches(e: Error, k: ErrorKind) -> bool {
    match e {
        Error::Io(m) => k matches ErrorKind::Io(n) && n == m,
        Error::Http { status_code, status_msg } => k matches ErrorKind::Http {
            status_code: c,
            status_msg: s,
        } && c == (match status_code {
            Some(n) => n,
            None => 200,
        }) && s == status_msg,
        Error::SerdeJson(m) => k matches ErrorKind::Io(n) && n == m,
        Error::BackendNotFound(m) => k matches ErrorKind::BackendNotFound(n) && n == m,
        Error::BackendBoot { reason, backend } => k matches ErrorKind::BackendBoot {
            reason: r,
            backend: b,
        } && r == reason && b == backend,
        Error::ModelNotFound { model, backend } => k matches ErrorKind::ModelNotFound {
            model: m2,
            backend: b,
        } && m2 == model && b == backend,
        Error::Internal(m) => k matches ErrorKind::Internal(n) && n == m,
        Error::Unknown => k matches ErrorKind::Internal(n) && n@ == "Internal error"@,
    }
}

impl Error {
    /// The presentation kind of this error.
    pub fn kind(&self) -> (k: ErrorKind)
        ensures
            kind_matches(*self, k),
    {
        match self {
            Error::Io(m) => ErrorKind::Io(m.clone()),
            Error::Http { status_code, status_msg } => ErrorKind::Http {
                status_code: match status_code {
                    Some(n) => *n,
                    None => 200,
                },
                status_msg: status_msg.clone(),
            },
            Error::SerdeJson(m) => ErrorKind::Io(m.clone()),
            Error::BackendNotFound(m) => ErrorKind::BackendNotFound(m.clone()),
            Error::BackendBoot { reason, backend } => ErrorKind::BackendBoot {
                reason: reason.clone(),
                backend: backend.clone(),
            },
            Error::ModelNotFound { model, backend } => ErrorKind::ModelNotFound {
                model: model.clone(),
                backend: backend.clone(),
            },
            Error::Internal(m) => ErrorKind::Internal(m.clone()),
            Error::Unknown => ErrorKind::Internal("Internal error".to_owned()),
        }
    }
}

/// An internal error carrying the given message.
pub fn internal(msg: &str) -> (e: Error)
    ensures
        e matches Error::Internal(m) && m@ == msg@,
{
    Error::Internal(msg.to_owned())
}

} // verus!
