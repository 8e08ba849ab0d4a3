//! The fatal error categories of one audit run.
//!
//! Every category aborts the run immediately: the tool is a point-in-time
//! audit over a presumed-consistent snapshot, and a half-completed
//! aggregation would misreport the trie's composition.  Each variant carries
//! enough context to tell store corruption from a genuine mutation conflict.

use vstd::prelude::*;
use crate::digest::Digest;

verus! {

/// A fatal error that aborts the whole run, with its diagnostic context.
pub enum TrieError {
    /// A popped digest had no record in the store: external corruption.
    StoreIntegrity { digest: Digest },
    /// A record's bytes did not decode as a trie node.
    Decode { digest: Digest, byte_len: usize },
    /// The mutation service rejected a delete of the carried key.
    Mutation { key_bytes: Vec<u8> },
}

/// Mathematical image of a fatal error.
pub ghost enum ErrorModel {
    StoreIntegrity { digest: Seq<u8> },
    Decode { digest: Seq<u8>, byte_len: nat },
    Mutation { key_bytes: Seq<u8> },
}

impl View for TrieError {
    type V = ErrorModel;

    open spec fn view(&self) -> ErrorModel {
        match self {
            TrieError::StoreIntegrity { digest } => ErrorModel::StoreIntegrity {
                digest: digest@,
            },
            TrieError::Decode { digest, byte_len } => ErrorModel::Decode {
                digest: digest@,
                byte_len: *byte_len as nat,
            },
            TrieError::Mutation { key_bytes } => ErrorModel::Mutation { key_bytes: key_bytes@ },
        }
    }
}

} // verus!
