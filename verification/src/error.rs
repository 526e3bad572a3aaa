//! The one error type of the library, and the kinds of failure it tells apart.

use vstd::prelude::*;
use vstd::string::*;

verus! {

/// Why a run failed.
#[derive(Clone, Copy, Debug, PartialEq, Eq, Structural)]
pub enum ErrorKind {
    /// A required configuration value is missing or malformed.
    Config,
    /// A DNS query was answered, but with no record of the type asked for.
    NotFound,
    /// A DNS query itself failed: a timeout, the network, a malformed or
    /// refused answer.
    Transport,
    /// The update API could not be reached or answered with a failure.
    Sink,
    /// An argument handed to the update API is malformed; nothing was sent.
    Validation,
}

/// A failure: its kind, and a message for a human reader.
#[derive(Debug, PartialEq, Eq)]
pub struct AppError {
    pub kind: ErrorKind,
    pub msg: String,
}

/// An [`AppError`] as a mathematical value.
pub ghost struct AppErrorView {
    pub kind: ErrorKind,
    pub msg: Seq<char>,
}

impl View for AppError {
    type V = AppErrorView;

    open spec fn view(&self) -> AppErrorView {
        AppErrorView { kind: self.kind, msg: self.msg@ }
    }
}

impl DeepView for AppError {
    type V = AppErrorView;

    open spec fn deep_view(&self) -> AppErrorView {
        self@
    }
}

impl Clone for AppError {
    fn clone(&self) -> (e: AppError)
        ensures
            e == *self,
    {
        AppError { kind: self.kind, msg: self.msg.clone() }
    }
}

impl AppErrorView {
    /// A failure of the DNS side: no record found, or the query failed.
    pub open spec fn is_dns(self) -> bool {
        self.kind == ErrorKind::NotFound || self.kind == ErrorKind::Transport
    }

    /// What is shown to the user: DNS failures are announced as such, the
    /// others speak for themselves.
    pub open spec fn shown(self) -> Seq<char> {
        if self.is_dns() {
            "DNS error "@ + self.msg
        } else {
            self.msg
        }
    }
}

/// The views of a result's two sides.
pub open spec fn result_view<T: View, E: View>(r: Result<T, E>) -> Result<T::V, E::V> {
    match r {
        Ok(value) => Ok(value@),
        Err(error) => Err(error@),
    }
}

/// The message of a failed DNS query, around what the resolver said of it.
pub open spec fn resolve_error_text(cause: Seq<char>) -> Seq<char> {
    "Resolve error: "@ + cause
}

impl AppError {
    /// A failure of the given kind with the given message.
    pub fn new(kind: ErrorKind, msg: &str) -> (e: AppError)
        ensures
            e@ == (AppErrorView { kind, msg: msg@ }),
    {
        AppError { kind, msg: String::from_str(msg) }
    }

    /// The failure of a DNS query, from what the resolver said of it.
    pub fn from_resolve_error(cause: &str) -> (e: AppError)
        ensures
            e@ == (AppErrorView {
                kind: ErrorKind::Transport,
                msg: resolve_error_text(cause@),
            }),
    {
        let mut msg = String::from_str("Resolve error: ");
        msg.append(cause);
        AppError { kind: ErrorKind::Transport, msg }
    }

    /// The kind of the failure.
    pub fn kind(&self) -> (k: ErrorKind)
        ensures
            k == self.kind,
    {
        self.kind
    }

    /// A short name for any failure of this library.
    pub fn description(&self) -> (s: &'static str)
        ensures
            s@ == "Application error"@,
    {
        "Application error"
    }

    /// The message to show to the user.
    pub fn to_string(&self) -> (s: String)
        ensures
            s@ == self@.shown(),
    {
        match self.kind {
            ErrorKind::NotFound | ErrorKind::Transport => {
                let mut s = String::from_str("DNS error ");
                s.append(self.msg.as_str());
                s
            },
            _ => self.msg.clone(),
        }
    }
}

} // verus!
