//! The slice of a consensus message that read-index bookkeeping reads.

use vstd::prelude::*;

verus! {

/// One log entry carried inside a message.  For a read-index request the
/// first entry's payload holds the correlation token.
#[derive(Debug, Clone)]
pub struct Entry {
    /// The entry's payload.
    pub data: Vec<u8>,
}

/// A consensus message, reduced to the parts this crate reads: the sender
/// and receiver identities, the correlation context echoed by heartbeat
/// responses, and the entries of the original request.
#[derive(Debug, Clone)]
pub struct Message {
    /// Identity of the sending node.
    pub from: u64,
    /// Identity of the receiving node.
    pub to: u64,
    /// Correlation context; heartbeat responses echo the token here.
    pub context: Vec<u8>,
    /// Entries of the original request.
    pub entries: Vec<Entry>,
}

impl Message {
    /// The correlation token embedded in a read-index request: the payload
    /// of its first entry.
    pub open spec fn token(self) -> Seq<u8> {
        self.entries@[0].data@
    }
}

} // verus!
