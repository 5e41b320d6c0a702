//! A wrapper error carrying a kind, and the older error taxonomy of the socket layer.
use vstd::prelude::*;
use crate::errors::LaminarError;

verus! {

/// Reasons a fragment could not be handled.
#[derive(Debug, Clone, Copy, PartialEq, Eq, Structural)]
pub enum FragmentErrorKind {
    /// A packet header was not found in the fragment.
    PacketHeaderNotFound,
}

/// The kinds of failure the socket layer distinguishes.
#[derive(Debug, Clone, Copy, PartialEq, Eq, Structural)]
pub enum NetworkErrorKind {
    /// Error relating to receiving or parsing a fragment.
    FragmentError(FragmentErrorKind),
    /// The underlying socket failed; the value is the operating system's error code, if any.
    IOError(i32),
    /// A packet was sent before the polling loop was started.
    PollingNotStarted,
    /// Not enough data was received.
    ReceivedDataToShort,
}

impl NetworkErrorKind {
    /// A short human-readable description of the failure.
    pub fn describe(&self) -> (r: &'static str) {
        match self {
            NetworkErrorKind::FragmentError(_) => "Something went wrong with receiving/parsing fragments.",
            NetworkErrorKind::IOError(_) => "An IO Error occurred.",
            NetworkErrorKind::PollingNotStarted => "Trying to send a packet without first starting the event loop",
            NetworkErrorKind::ReceivedDataToShort => "The received data did not have any length.",
        }
    }
}

/// An error of the transport, carrying its kind.
#[derive(Debug, Clone, Copy, PartialEq, Eq, Structural)]
pub struct NetworkError {
    kind: LaminarError,
}

impl View for NetworkError {
    type V = LaminarError;

    closed spec fn view(&self) -> LaminarError {
        self.kind
    }
}

impl NetworkError {
    /// Wraps `kind`.
    pub fn new(kind: LaminarError) -> (r: Self)
        ensures
            r@ == kind,
    {
        Self { kind }
    }

    /// The kind of this error.
    pub fn kind(&self) -> (r: &LaminarError)
        ensures
            *r == self@,
    {
        &self.kind
    }
}

impl From<LaminarError> for NetworkError {
    fn from(kind: LaminarError) -> (r: NetworkError) {
        NetworkError { kind }
    }
}

impl vstd::std_specs::convert::FromSpecImpl<LaminarError> for NetworkError {
    open spec fn obeys_from_spec() -> bool {
        true
    }

    closed spec fn from_spec(kind: LaminarError) -> NetworkError {
        NetworkError { kind }
    }
}

} // verus!
