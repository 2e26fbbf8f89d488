//! Error values shared by the engine and its protocol backend.

use vstd::prelude::*;
use vstd::string::StringExecFns;
use crate::atoms::X11Atom;

verus! {

/// The kinds of failure the window manager distinguishes.
#[derive(Clone, Copy, Debug, PartialEq, Eq, Structural)]
pub enum MarsErrorKind {
    ConnectionFailed,
    FailedRequest,
    IllegalValue,
    InvalidInput,
    PropertyUnavailable,
    Unknown,
    UnsupportedProtocol,
}

impl MarsErrorKind {
    /// The user-visible description of the kind.
    pub open spec fn spec_name(&self) -> Seq<char> {
        match self {
            MarsErrorKind::ConnectionFailed => "Connection failed"@,
            MarsErrorKind::FailedRequest => "Failed request"@,
            MarsErrorKind::IllegalValue => "Illegal value"@,
            MarsErrorKind::InvalidInput => "Invalid input"@,
            MarsErrorKind::PropertyUnavailable => "Property not available"@,
            MarsErrorKind::Unknown => "Unknown error"@,
            MarsErrorKind::UnsupportedProtocol => "Protocol not supported"@,
        }
    }

    pub fn name(&self) -> (r: &'static str)
        ensures
            r@ == self.spec_name(),
    {
        match self {
            MarsErrorKind::ConnectionFailed => "Connection failed",
            MarsErrorKind::FailedRequest => "Failed request",
            MarsErrorKind::IllegalValue => "Illegal value",
            MarsErrorKind::InvalidInput => "Invalid input",
            MarsErrorKind::PropertyUnavailable => "Property not available",
            MarsErrorKind::Unknown => "Unknown error",
            MarsErrorKind::UnsupportedProtocol => "Protocol not supported",
        }
    }
}

/// An error: its kind plus an optional detail string.
#[derive(Clone, Debug)]
pub struct MarsError {
    kind: MarsErrorKind,
    info: Option<String>,
}

impl MarsError {
    pub closed spec fn spec_kind(&self) -> MarsErrorKind {
        self.kind
    }

    /// The view of the detail string, if one is present.
    pub closed spec fn spec_info(&self) -> Option<Seq<char>> {
        match self.info {
            Some(s) => Some(s@),
            None => None,
        }
    }

    pub fn kind(&self) -> (r: MarsErrorKind)
        ensures
            r == self.spec_kind(),
    {
        self.kind
    }

    /// A failed protocol request; `call` names the request.
    pub fn failed_request(call: &str) -> (e: MarsError)
        ensures
            e.spec_kind() == MarsErrorKind::FailedRequest,
            e.spec_info() == Some(call@ + " failed"@),
    {
        MarsError {
            kind: MarsErrorKind::FailedRequest,
            info: Some(String::from_str(call).concat(" failed")),
        }
    }

    /// A value that could not be converted between two representations.
    pub fn failed_conversion(value: &str, from: &str, to: &str) -> (e: MarsError)
        ensures
            e.spec_kind() == MarsErrorKind::IllegalValue,
            e.spec_info() == Some(
                "unable to convert "@ + value@ + " from "@ + from@ + " to "@ + to@,
            ),
    {
        MarsError {
            kind: MarsErrorKind::IllegalValue,
            info: Some(
                String::from_str("unable to convert ").concat(value).concat(" from ").concat(
                    from,
                ).concat(" to ").concat(to),
            ),
        }
    }

    /// Malformed input supplied by the user or a client.
    pub fn invalid_input(msg: &str) -> (e: MarsError)
        ensures
            e.spec_kind() == MarsErrorKind::InvalidInput,
            e.spec_info() == Some(msg@),
    {
        MarsError { kind: MarsErrorKind::InvalidInput, info: Some(String::from_str(msg)) }
    }

    /// A protocol peer answered a request with an unusable value.
    pub fn invalid_response(request: &str) -> (e: MarsError)
        ensures
            e.spec_kind() == MarsErrorKind::IllegalValue,
            e.spec_info() == Some(
                "invalid response value to request '"@ + request@ + "'"@,
            ),
    {
        MarsError {
            kind: MarsErrorKind::IllegalValue,
            info: Some(
                String::from_str("invalid response value to request '").concat(request).concat(
                    "'",
                ),
            ),
        }
    }

    /// An expected window property is absent.
    pub fn property_unavailable(property: &str) -> (e: MarsError)
        ensures
            e.spec_kind() == MarsErrorKind::PropertyUnavailable,
            e.spec_info() == Some(property@),
    {
        MarsError {
            kind: MarsErrorKind::PropertyUnavailable,
            info: Some(String::from_str(property)),
        }
    }

    /// A failure with no more precise classification.
    pub fn unknown(info: &str) -> (e: MarsError)
        ensures
            e.spec_kind() == MarsErrorKind::Unknown,
            e.spec_info() == Some(info@),
    {
        MarsError { kind: MarsErrorKind::Unknown, info: Some(String::from_str(info)) }
    }

    /// An advertised hint atom the manager does not implement.
    pub fn x11_unsupported_atom(atom: X11Atom) -> (e: MarsError)
        ensures
            e.spec_kind() == MarsErrorKind::UnsupportedProtocol,
            e.spec_info() == Some(atom.spec_name()),
    {
        MarsError {
            kind: MarsErrorKind::UnsupportedProtocol,
            info: Some(String::from_str(atom.name())),
        }
    }

    /// Failure to establish the protocol connection at startup.
    pub fn x11_open_display() -> (e: MarsError)
        ensures
            e.spec_kind() == MarsErrorKind::ConnectionFailed,
            e.spec_info() == Some("XOpenDisplay"@),
    {
        MarsError {
            kind: MarsErrorKind::ConnectionFailed,
            info: Some(String::from_str("XOpenDisplay")),
        }
    }

    /// Renders the error for the diagnostic channel: the kind's name,
    /// followed by the detail in parentheses when one is present.
    pub fn message(&self) -> (r: String)
        ensures
            r@ == match self.spec_info() {
                Some(info) => self.spec_kind().spec_name() + " ("@ + info + ")"@,
                None => self.spec_kind().spec_name(),
            },
    {
        let base = String::from_str(self.kind.name());
        match &self.info {
            Some(info) => base.concat(" (").concat(info.as_str()).concat(")"),
            None => base,
        }
    }
}

} // verus!
