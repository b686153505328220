//! The errors of the client.

use vstd::prelude::*;

verus! {

/// Why a request of the client failed.
#[derive(Debug, Clone)]
pub enum XlineClientError {
    /// A watch request could not be sent.
    WatchError(String),
    /// A lease request could not be sent.
    LeaseError(String),
}

} // verus!
