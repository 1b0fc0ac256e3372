//! The error type shared by every part of the engine.

use vstd::prelude::*;
use vstd::string::StringExecFns;

verus! {

/// What went wrong, by class.
#[derive(Debug, Clone, Copy, PartialEq, Eq, Structural)]
pub enum ErrorKind {
    /// The caller handed in something unusable: a bad interface name, a
    /// malformed hardware address, a host name that is too long, an instant
    /// that lies in the future.
    InvalidArgument,
    /// The environment or an internal invariant failed: a socket call, a
    /// closed channel.
    Bug,
    /// The interface or the session asked for does not exist.
    NotFound,
    /// Bytes from the wire that are no DHCP message.
    Malformed,
}

/// An error of the engine: its class and a message for people.
#[derive(Debug, Clone, PartialEq, Eq)]
pub struct DhcpError {
    pub kind: ErrorKind,
    pub msg: String,
}

impl ErrorKind {
    /// The name of the class, as it is shown in front of a message.
    pub open spec fn name(self) -> Seq<char> {
        match self {
            ErrorKind::InvalidArgument => "InvalidArgument"@,
            ErrorKind::Bug => "Bug"@,
            ErrorKind::NotFound => "NotFound"@,
            ErrorKind::Malformed => "Malformed"@,
        }
    }

    pub fn as_str(&self) -> (s: &'static str)
        ensures
            s@ == self.name(),
    {
        match self {
            ErrorKind::InvalidArgument => "InvalidArgument",
            ErrorKind::Bug => "Bug",
            ErrorKind::NotFound => "NotFound",
            ErrorKind::Malformed => "Malformed",
        }
    }
}

impl DhcpError {
    pub fn new(kind: ErrorKind, msg: String) -> (e: Self)
        ensures
            e.kind == kind,
            e.msg == msg,
    {
        Self { kind, msg }
    }

    pub fn invalid_argument(msg: String) -> (e: Self)
        ensures
            e.kind == ErrorKind::InvalidArgument,
            e.msg == msg,
    {
        Self { kind: ErrorKind::InvalidArgument, msg }
    }

    pub fn bug(msg: String) -> (e: Self)
        ensures
            e.kind == ErrorKind::Bug,
            e.msg == msg,
    {
        Self { kind: ErrorKind::Bug, msg }
    }

    pub fn not_found(msg: String) -> (e: Self)
        ensures
            e.kind == ErrorKind::NotFound,
            e.msg == msg,
    {
        Self { kind: ErrorKind::NotFound, msg }
    }

    pub fn malformed(msg: String) -> (e: Self)
        ensures
            e.kind == ErrorKind::Malformed,
            e.msg == msg,
    {
        Self { kind: ErrorKind::Malformed, msg }
    }

    /// The text shown to people: the class, a colon and the message.
    pub open spec fn text(self) -> Seq<char> {
        self.kind.name() + ": "@ + self.msg@
    }

    /// The error as one line of text.
    pub fn describe(&self) -> (s: String)
        ensures
            s@ == self.text(),
    {
        String::from_str(self.kind.as_str()).concat(": ").concat(self.msg.as_str())
    }
}

} // verus!
