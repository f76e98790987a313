//! The error taxonomy of the owning consensus engine.
//!
//! Read-index bookkeeping itself has no fallible operations; these types
//! exist so the engine can report unserviceable requests to its callers.

use vstd::prelude::*;

verus! {

/// The kind of an I/O failure, as the engine distinguishes them.
#[derive(Debug, Clone, Copy, PartialEq, Eq, Structural)]
pub enum IoErrorKind {
    /// An entity was not found.
    NotFound,
    /// The operation lacked the necessary privileges.
    PermissionDenied,
    /// The connection was refused by the remote server.
    ConnectionRefused,
    /// The operation failed because a pipe was closed.
    BrokenPipe,
    /// An entity already exists.
    AlreadyExists,
    /// A parameter was incorrect.
    InvalidInput,
    /// Data was not valid for the operation.
    InvalidData,
    /// The operation's deadline passed.
    TimedOut,
    /// A write returned `Ok(0)`.
    WriteZero,
    /// The operation was interrupted.
    Interrupted,
    /// Reading hit an unexpected end of file.
    UnexpectedEof,
    /// Any other kind of failure.
    Other,
}

/// An I/O failure, reduced to its kind and a human-readable message.
/// Two I/O errors are considered equal when their kinds match, whatever
/// their messages say.
#[derive(Debug, Clone)]
pub struct IoError {
    /// What went wrong.
    pub kind: IoErrorKind,
    /// A human-readable description.
    pub message: String,
}

impl IoError {
    /// Builds an I/O error of the given kind with the given message.
    pub fn new(kind: IoErrorKind, message: &str) -> (r: IoError)
        ensures
            r.kind == kind,
            r.message@ == message@,
    {
        IoError { kind, message: message.to_owned() }
    }
}

/// An error of the storage backing the log.
#[derive(Debug, Clone, Copy, PartialEq, Eq, Structural)]
pub enum StorageError {
    /// The storage was compacted and is not accessible.
    Compacted,
    /// The log is not available.
    Unavailable,
    /// The snapshot is out of date.
    SnapshotOutOfDate,
    /// The snapshot is being created.
    SnapshotTemporarilyUnavailable,
}

/// Relies on protobuf's error type: message encoding and decoding report
/// failures through it, and this crate only carries such a value along.
#[verifier::external_type_specification]
#[verifier::external_body]
pub struct ExProtobufError(protobuf::ProtobufError);

/// The base error type of the consensus engine.
#[derive(Debug)]
pub enum Error {
    /// An I/O error occurred.
    Io(IoError),
    /// A storage error occurred.
    Store(StorageError),
    /// The engine cannot step the local message.
    StepLocalMsg,
    /// The peer is not found and thus cannot step.
    StepPeerNotFound,
    /// The proposal of changes was dropped.
    ProposalDropped,
    /// The configuration is invalid.
    ConfigInvalid(String),
    /// A protobuf message codec failed in some manner.
    CodecError(protobuf::ProtobufError),
    /// The node exists, but should not.
    Exists(u64, &'static str),
    /// The node does not exist, but should.
    NotExists(u64, &'static str),
    /// The requested snapshot was dropped.
    RequestSnapshotDropped,
}

impl PartialEq for Error {
    fn eq(&self, other: &Error) -> (r: bool) {
        match (self, other) {
            (Error::StepPeerNotFound, Error::StepPeerNotFound) => true,
            (Error::ProposalDropped, Error::ProposalDropped) => true,
            (Error::Store(e1), Error::Store(e2)) => *e1 == *e2,
            (Error::Io(e1), Error::Io(e2)) => e1.kind == e2.kind,
            (Error::StepLocalMsg, Error::StepLocalMsg) => true,
            (Error::ConfigInvalid(e1), Error::ConfigInvalid(e2)) => *e1 == *e2,
            (Error::RequestSnapshotDropped, Error::RequestSnapshotDropped) => true,
            _ => false,
        }
    }
}

impl vstd::std_specs::cmp::PartialEqSpecImpl for Error {
    open spec fn obeys_eq_spec() -> bool {
        true
    }

    open spec fn eq_spec(&self, other: &Error) -> bool {
        match (self, other) {
            (Error::StepPeerNotFound, Error::StepPeerNotFound) => true,
            (Error::ProposalDropped, Error::ProposalDropped) => true,
            (Error::Store(e1), Error::Store(e2)) => e1 == e2,
            (Error::Io(e1), Error::Io(e2)) => e1.kind == e2.kind,
            (Error::StepLocalMsg, Error::StepLocalMsg) => true,
            (Error::ConfigInvalid(e1), Error::ConfigInvalid(e2)) => e1@ == e2@,
            (Error::RequestSnapshotDropped, Error::RequestSnapshotDropped) => true,
            _ => false,
        }
    }
}

impl From<IoError> for Error {
    fn from(e: IoError) -> (r: Error) {
        Error::Io(e)
    }
}

impl vstd::std_specs::convert::FromSpecImpl<IoError> for Error {
    open spec fn obeys_from_spec() -> bool {
        true
    }

    open spec fn from_spec(e: IoError) -> Error {
        Error::Io(e)
    }
}

impl From<StorageError> for Error {
    fn from(e: StorageError) -> (r: Error) {
        Error::Store(e)
    }
}

impl vstd::std_specs::convert::FromSpecImpl<StorageError> for Error {
    open spec fn obeys_from_spec() -> bool {
        true
    }

    open spec fn from_spec(e: StorageError) -> Error {
        Error::Store(e)
    }
}

impl From<protobuf::ProtobufError> for Error {
    fn from(e: protobuf::ProtobufError) -> (r: Error) {
        Error::CodecError(e)
    }
}

impl vstd::std_specs::convert::FromSpecImpl<protobuf::ProtobufError> for Error {
    open spec fn obeys_from_spec() -> bool {
        true
    }

    open spec fn from_spec(e: protobuf::ProtobufError) -> Error {
        Error::CodecError(e)
    }
}

} // verus!
