//! The failures a synchronisation cycle can end in.

use vstd::prelude::*;

verus! {

/// Why an operation of the synchroniser did not complete.
#[derive(Debug)]
pub enum SyncError {
    /// Startup settings are missing or invalid.
    Configuration { detail: String },
    /// No pooled handle became free within the bounded number of attempts.
    ConnectionExhausted,
    /// The search engine or the data source answered with a failure;
    /// `status` is the status of the answer where it has one, and `body` is
    /// the answer as it came.
    RemoteProtocol { operation: String, status: Option<u16>, body: String },
    /// Every node of the search engine failed to answer; `last_error` is the
    /// failure of the node that was tried last.
    AllNodesFailed { last_error: Option<String> },
    /// An entity key has no entry in the category lookup.
    DataIntegrity { seq: i32 },
    /// A timestamp or another value could not be decoded.
    Parse { detail: String },
}

impl SyncError {
    /// The failure is of a value that could not be read, and says `text`.
    pub open spec fn is_parse_of(self, text: Seq<char>) -> bool {
        self matches SyncError::Parse { detail } && detail@ == text
    }

    /// The failure is of a setting that cannot be used, and says `text`.
    pub open spec fn is_configuration_of(self, text: Seq<char>) -> bool {
        self matches SyncError::Configuration { detail } && detail@ == text
    }

    /// The failure is the answer of the search engine that what was asked
    /// for does not exist.
    pub open spec fn not_found(self) -> bool {
        self matches SyncError::RemoteProtocol { status, .. } && status == Some(404u16)
    }

    /// Whether the failure is the answer of the search engine that what was
    /// asked for does not exist.
    pub fn is_not_found(&self) -> (b: bool)
        ensures
            b == self.not_found(),
    {
        match self {
            SyncError::RemoteProtocol { status: Some(code), .. } => *code == 404,
            _ => false,
        }
    }
}

} // verus!
