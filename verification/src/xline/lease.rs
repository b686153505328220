//! Keeping leases alive.

use crate::xline::channel::{keep_alives_sent, send_failure, try_send_keep_alive};
use crate::xline::error::XlineClientError;
use futures::channel::mpsc::Sender;
use vstd::prelude::*;

verus! {

/// A request to keep a lease alive.
#[derive(Debug, Clone, Copy, PartialEq, Eq, Structural)]
pub struct LeaseKeepAliveRequest {
    pub id: i64,
}

/// The sender of the keep-alive requests of a lease.
#[derive(Debug)]
pub struct LeaseKeeper {
    id: i64,
    sender: Sender<LeaseKeepAliveRequest>,
}

impl LeaseKeeper {
    /// The lease.
    pub closed spec fn lease(self) -> i64 {
        self.id
    }

    /// The requests that were put into the channel.
    pub closed spec fn sent(self) -> Seq<LeaseKeepAliveRequest> {
        keep_alives_sent(self.sender)
    }

    /// A keeper of a lease.
    pub fn new(id: i64, sender: Sender<LeaseKeepAliveRequest>) -> (r: LeaseKeeper)
        ensures
            r.lease() == id,
            r.sent() == keep_alives_sent(sender),
    {
        LeaseKeeper { id, sender }
    }

    /// The lease.
    pub fn id(&self) -> (r: i64)
        ensures
            r == self.lease(),
    {
        self.id
    }

    /// Sends a keep-alive request for the lease.
    pub fn keep_alive(&mut self) -> (r: Result<(), XlineClientError>)
        ensures
            final(self).lease() == old(self).lease(),
            match r {
                Ok(_) => final(self).sent() == old(self).sent().push(
                    LeaseKeepAliveRequest { id: old(self).lease() },
                ),
                Err(e) => final(self).sent() == old(self).sent() && (
                e matches XlineClientError::LeaseError(text) && send_failure(text@)),
            },
    {
        let request = LeaseKeepAliveRequest { id: self.id };
        match try_send_keep_alive(&mut self.sender, request) {
            Ok(()) => Ok(()),
            Err(text) => Err(XlineClientError::LeaseError(text)),
        }
    }
}

/// The replies to the keep-alive requests of a lease. It holds an end of the request channel, so
/// that the channel stays open when the keeper is gone.
#[derive(Debug)]
pub struct LeaseStreaming<S> {
    pub inner: S,
    sender: Sender<LeaseKeepAliveRequest>,
}

impl<S> LeaseStreaming<S> {
    /// The stream.
    pub closed spec fn stream(self) -> S {
        self.inner
    }

    /// The replies of a stream.
    pub fn new(inner: S, sender: Sender<LeaseKeepAliveRequest>) -> (r: LeaseStreaming<S>)
        ensures
            r.stream() == inner,
    {
        LeaseStreaming { inner, sender }
    }
}

} // verus!
