//! The listeners that all servers of a process share.

use crate::meta::store::detailed;
use crate::server::port_router::{PortRouter, RoutingView};
use vstd::prelude::*;

verus! {

/// The listeners and the known servers.
pub struct SharedQuicState<L> {
    pub listeners: L,
    pub servers: PortRouter,
}

/// The shared listeners of a process: there are none until the first server starts, and none
/// after the shutdown.
pub struct SharedQuicRuntime<L> {
    state: Option<SharedQuicState<L>>,
    initialized: bool,
}

impl<L> SharedQuicRuntime<L> {
    /// What is shared: the listeners and the known servers.
    pub closed spec fn shared(self) -> Option<(L, Map<Seq<char>, RoutingView>)> {
        match self.state {
            Some(state) => Some((state.listeners, state.servers@)),
            None => None,
        }
    }

    /// Whether the state is as one of the functions left it.
    pub closed spec fn wf(self) -> bool {
        &&& self.initialized == self.state.is_some()
        &&& (self.state matches Some(state) ==> state.servers.wf())
    }

    /// Nothing is shared yet.
    pub fn new() -> (r: SharedQuicRuntime<L>)
        ensures
            r.wf(),
            r.shared() is None,
    {
        SharedQuicRuntime { state: None, initialized: false }
    }

    /// Whether the listeners are there.
    pub fn is_initialized(&self) -> (r: bool)
        requires
            self.wf(),
        ensures
            r == (self.shared() is Some),
    {
        self.initialized
    }

    /// Starts sharing where nothing is shared yet: `listened` tells what came of listening, and is
    /// looked at in that case alone. Tells whether this was the first start; the first server is
    /// the one that accepts connections.
    pub fn get_or_init(&mut self, listened: Option<Result<L, String>>) -> (r: Result<bool, String>)
        requires
            old(self).wf(),
            old(self).shared() is None ==> listened is Some,
        ensures
            final(self).wf(),
            match old(self).shared() {
                Some(_) => *final(self) == *old(self) && r == Ok::<bool, String>(false),
                None => match listened {
                    Some(Ok(listeners)) => r == Ok::<bool, String>(true) && final(self).shared()
                        == Some((listeners, Map::<Seq<char>, RoutingView>::empty())),
                    Some(Err(e)) => *final(self) == *old(self) && (r matches Err(text) && text@
                        == "QuicListeners::builder failed: "@ + e@),
                    None => false,
                },
            },
    {
        if self.state.is_some() {
            return Ok(false);
        }
        match listened {
            Some(Ok(listeners)) => {
                self.state = Some(SharedQuicState { listeners, servers: PortRouter::new() });
                self.initialized = true;
                Ok(true)
            },
            Some(Err(e)) => Err(detailed("QuicListeners::builder failed: ", e.as_str())),
            None => Ok(false),
        }
    }

    /// Ends the sharing and hands out the listeners that are to be shut down, if any.
    pub fn shutdown(&mut self) -> (r: Option<L>)
        requires
            old(self).wf(),
        ensures
            final(self).wf(),
            final(self).shared() is None,
            match old(self).shared() {
                Some(shared) => r == Some(shared.0),
                None => r is None,
            },
    {
        match self.state.take() {
            Some(state) => {
                self.initialized = false;
                Some(state.listeners)
            },
            None => None,
        }
    }

    /// The known servers.
    pub fn servers(&self) -> (r: Option<&PortRouter>)
        requires
            self.wf(),
        ensures
            match self.shared() {
                Some(shared) => r matches Some(servers) && servers.wf() && servers@ == shared.1,
                None => r is None,
            },
    {
        match &self.state {
            Some(state) => Some(&state.servers),
            None => None,
        }
    }

    /// Replaces the known servers.
    pub fn set_servers(&mut self, servers: PortRouter)
        requires
            old(self).wf(),
            servers.wf(),
            old(self).shared() is Some,
        ensures
            final(self).wf(),
            final(self).shared() == Some(((old(self).shared()->0).0, servers@)),
    {
        match self.state.take() {
            Some(state) => {
                self.state = Some(SharedQuicState { listeners: state.listeners, servers });
            },
            None => {},
        }
    }
}

} // verus!
