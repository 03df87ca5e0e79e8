//! The ways in which fetching and storing can fail.

use vstd::prelude::*;

verus! {

/// What went wrong.
#[derive(Clone, Copy, Debug, PartialEq, Eq, Structural)]
pub enum IndexError {
    /// A request did not get through to the remote side, or its reply could
    /// not be read in full.
    Transport,
    /// A reply could not be decoded, or lacks a member that was expected.
    Parse,
    /// The comic with this identifier was asked for as often as is allowed,
    /// and no request got through.
    FetchFailed(u64),
    /// The stored index could not be read as what it should hold.
    StoreCorrupt,
    /// The index could not be written back.
    StoreUnwritable,
}

impl IndexError {
    /// Whether the failure ends a synchronisation pass. Failures to fetch one
    /// comic do not: the comic waits for the next pass.
    pub open spec fn is_fatal(self) -> bool {
        self is StoreCorrupt || self is StoreUnwritable
    }

    /// The failure in words.
    pub open spec fn message_text(self) -> Seq<char> {
        match self {
            IndexError::Transport => "Error: failed retrieving page"@,
            IndexError::Parse => "Error: failed deserializing comic"@,
            IndexError::FetchFailed(_) => "Error: failed retrieving comic"@,
            IndexError::StoreCorrupt => "Error: failed to read index file"@,
            IndexError::StoreUnwritable => "Error: failed to create index file"@,
        }
    }

    /// The failure in words.
    pub fn message(&self) -> (text: &'static str)
        ensures
            text@ == self.message_text(),
    {
        match self {
            IndexError::Transport => "Error: failed retrieving page",
            IndexError::Parse => "Error: failed deserializing comic",
            IndexError::FetchFailed(_) => "Error: failed retrieving comic",
            IndexError::StoreCorrupt => "Error: failed to read index file",
            IndexError::StoreUnwritable => "Error: failed to create index file",
        }
    }

    /// Whether the failure ends a synchronisation pass.
    pub fn fatal(&self) -> (fatal: bool)
        ensures
            fatal == self.is_fatal(),
    {
        match self {
            IndexError::StoreCorrupt => true,
            IndexError::StoreUnwritable => true,
            _ => false,
        }
    }
}

} // verus!
