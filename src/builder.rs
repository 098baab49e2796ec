//! Assembles a handler, an executor and a transport around a fresh session.
use vstd::prelude::*;
use crate::session::RequestClient;

verus! {

/// A session under construction, with the handler, executor and transport
/// chosen so far (`()` for one not chosen yet). Building spawns nothing and
/// performs no handshake.
pub struct ClientBuilder<F, E, C> {
    handler: F,
    base: RequestClient,
    executor: E,
    connector: C,
}

impl ClientBuilder<(), (), ()> {
    /// A builder around a fresh session, with nothing chosen yet.
    pub fn new() -> (r: Self)
        ensures
            r.base_view().identity_view() == 0,
            r.base_view().seq_view() == 0,
            !r.base_view().closed_view(),
            r.base_view().pending_view() == Set::<u32>::empty(),
            r.base_view().writer_queue_view(),
            r.base_view().outbound_view() == Seq::<crate::packet::Packet>::empty(),
            r.base_view().handed_view() == Seq::<(u32, Seq<u8>)>::empty(),
            r.handler_view() == (),
            r.executor_view() == (),
            r.connector_view() == (),
    {
        ClientBuilder { handler: (), base: RequestClient::new(), executor: (), connector: () }
    }
}

impl Default for ClientBuilder<(), (), ()> {
    fn default() -> (r: Self)
        ensures
            r.base_view().identity_view() == 0,
            r.base_view().seq_view() == 0,
            !r.base_view().closed_view(),
            r.base_view().pending_view() == Set::<u32>::empty(),
            r.base_view().writer_queue_view(),
            r.base_view().outbound_view() == Seq::<crate::packet::Packet>::empty(),
            r.base_view().handed_view() == Seq::<(u32, Seq<u8>)>::empty(),
            r.handler_view() == (),
            r.executor_view() == (),
            r.connector_view() == (),
    {
        ClientBuilder::new()
    }
}

impl<F, E, C> ClientBuilder<F, E, C> {
    pub closed spec fn handler_view(&self) -> F {
        self.handler
    }

    pub closed spec fn base_view(&self) -> RequestClient {
        self.base
    }

    pub closed spec fn executor_view(&self) -> E {
        self.executor
    }

    pub closed spec fn connector_view(&self) -> C {
        self.connector
    }

    /// Chooses the handler of unsolicited events, keeping the rest.
    pub fn with_handler<H>(self, handler: H) -> (r: ClientBuilder<H, E, C>)
        ensures
            r.handler_view() == handler,
            r.base_view() == self.base_view(),
            r.executor_view() == self.executor_view(),
            r.connector_view() == self.connector_view(),
    {
        ClientBuilder {
            handler,
            base: self.base,
            executor: self.executor,
            connector: self.connector,
        }
    }

    /// Chooses the executor that runs the session's tasks, keeping the rest.
    pub fn with_executor<T>(self, executor: T) -> (r: ClientBuilder<F, T, C>)
        ensures
            r.handler_view() == self.handler_view(),
            r.base_view() == self.base_view(),
            r.executor_view() == executor,
            r.connector_view() == self.connector_view(),
    {
        ClientBuilder {
            handler: self.handler,
            base: self.base,
            executor,
            connector: self.connector,
        }
    }

    /// Chooses the transport, keeping the rest.
    pub fn with_connector<T>(self, connector: T) -> (r: ClientBuilder<F, E, T>)
        ensures
            r.handler_view() == self.handler_view(),
            r.base_view() == self.base_view(),
            r.executor_view() == self.executor_view(),
            r.connector_view() == connector,
    {
        ClientBuilder {
            handler: self.handler,
            base: self.base,
            executor: self.executor,
            connector,
        }
    }

    /// The session being built.
    pub fn base(&self) -> (r: &RequestClient)
        ensures
            *r == self.base_view(),
    {
        &self.base
    }

    /// Takes the builder apart: handler, session, executor and transport.
    pub fn into_parts(self) -> (r: (F, RequestClient, E, C))
        ensures
            r.0 == self.handler_view(),
            r.1 == self.base_view(),
            r.2 == self.executor_view(),
            r.3 == self.connector_view(),
    {
        (self.handler, self.base, self.executor, self.connector)
    }
}

} // verus!
